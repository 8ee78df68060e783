use vstd::prelude::*;

use crate::model::{role_of, Conversation, Message, Role};
use crate::seqs::{
    keep, lemma_keep_all, lemma_keep_complete, lemma_keep_indices, lemma_keep_keep, lemma_keep_none,
    lemma_keep_push, lemma_keep_step,
};

verus! {

/// Why a store operation was refused.
#[derive(Clone, Copy, Debug, PartialEq, Eq, Structural)]
pub enum StoreError {
    /// The role is not one of the stored role names.
    InvalidRole,
    /// No conversation has the identifier that a message names.
    UnknownConversation,
    /// The identifier of a new row is taken already.
    DuplicateId,
    /// The store clock has reached its largest value.
    ClockExhausted,
    /// An identifier is not in the form that the store hands out.
    MalformedId,
}

pub open spec fn store_error_text(e: StoreError) -> Seq<char> {
    match e {
        StoreError::InvalidRole => "invalid message role"@,
        StoreError::UnknownConversation => "no such conversation"@,
        StoreError::DuplicateId => "identifier already in use"@,
        StoreError::ClockExhausted => "store clock exhausted"@,
        StoreError::MalformedId => "malformed identifier"@,
    }
}

impl StoreError {
    pub fn describe(&self) -> (r: &'static str)
        ensures
            r@ == store_error_text(*self),
    {
        match self {
            StoreError::InvalidRole => "invalid message role",
            StoreError::UnknownConversation => "no such conversation",
            StoreError::DuplicateId => "identifier already in use",
            StoreError::ClockExhausted => "store clock exhausted",
            StoreError::MalformedId => "malformed identifier",
        }
    }
}

/// Conversations and their messages.
///
/// Conversations stand in order of last activity, oldest first; messages
/// stand in order of insertion, which is also the order of their times. Every
/// time that the store hands out comes from `clock` and is larger than every
/// earlier one, so no two messages share a time.
pub struct Store {
    pub conversations: Vec<Conversation>,
    pub messages: Vec<Message>,
    pub clock: i64,
}

/// The time that the store gives a new row when the wall clock reads `now`.
pub open spec fn next_stamp(clock: i64, now: i64) -> i64 {
    if now > clock {
        now
    } else {
        (clock + 1) as i64
    }
}

pub open spec fn has_conversation(cs: Seq<Conversation>, id: Seq<char>) -> bool {
    exists|j: int| 0 <= j < cs.len() && #[trigger] cs[j].id@ == id
}

pub open spec fn has_message(ms: Seq<Message>, id: Seq<char>) -> bool {
    exists|j: int| 0 <= j < ms.len() && #[trigger] ms[j].id@ == id
}

pub open spec fn owned_by(cid: Seq<char>) -> spec_fn(Message) -> bool {
    |m: Message| m.conversation_id@ == cid
}

/// The messages of one conversation, in store order.
pub open spec fn in_conversation(ms: Seq<Message>, cid: Seq<char>) -> Seq<Message> {
    keep(ms, owned_by(cid))
}

/// The store's invariant over its parts.
pub open spec fn well_formed(cs: Seq<Conversation>, ms: Seq<Message>, clock: i64) -> bool {
    &&& forall|i: int, j: int|
        0 <= i < j < cs.len() ==> cs[i].id@ != cs[j].id@ && cs[i].updated_at < cs[j].updated_at
    &&& forall|i: int| #![trigger cs[i]] 0 <= i < cs.len() ==> cs[i].updated_at <= clock
    &&& forall|i: int, j: int|
        0 <= i < j < ms.len() ==> ms[i].id@ != ms[j].id@ && ms[i].created_at < ms[j].created_at
    &&& forall|i: int|
        #![trigger ms[i]]
        0 <= i < ms.len() ==> ms[i].created_at <= clock && has_conversation(cs, ms[i].conversation_id@)
}

impl Store {
    pub open spec fn wf(&self) -> bool {
        well_formed(self.conversations@, self.messages@, self.clock)
    }

    pub fn new() -> (r: Store)
        ensures
            r.wf(),
            r.conversations@.len() == 0,
            r.messages@.len() == 0,
            r.clock == i64::MIN,
    {
        Store { conversations: Vec::new(), messages: Vec::new(), clock: i64::MIN }
    }
}

impl Store {
    /// A store over rows read back from elsewhere, where they meet the
    /// store's invariant: conversations by ascending last activity, messages
    /// by ascending time, identifiers unique, no time past `clock`, and every
    /// message owned by a listed conversation.
    pub fn restore(conversations: Vec<Conversation>, messages: Vec<Message>, clock: i64) -> (r: Option<Store>)
        ensures
            r is Some <==> well_formed(conversations@, messages@, clock),
            r is Some ==> {
                let s = r->Some_0;
                s.conversations@ == conversations@ && s.messages@ == messages@ && s.clock == clock
            },
    {
        let mut i: usize = 0;
        while i < conversations.len()
            invariant
                i <= conversations@.len(),
                forall|a: int, b: int|
                    0 <= a < b < i ==> conversations@[a].id@ != conversations@[b].id@ && conversations@[a].updated_at < conversations@[b].updated_at,
                forall|a: int| #![trigger conversations@[a]] 0 <= a < i ==> conversations@[a].updated_at <= clock,
            decreases conversations@.len() - i,
        {
            if conversations[i].updated_at > clock {
                proof {
                    if well_formed(conversations@, messages@, clock) {
                        assert(conversations@[i as int].updated_at <= clock);
                    }
                }
                return None;
            }
            if i > 0 && conversations[i - 1].updated_at >= conversations[i].updated_at {
                proof {
                    if well_formed(conversations@, messages@, clock) {
                        assert(conversations@[i - 1].updated_at < conversations@[i as int].updated_at);
                    }
                }
                return None;
            }
            let mut j: usize = 0;
            while j < i
                invariant
                    j <= i < conversations@.len(),
                    forall|a: int| 0 <= a < j ==> conversations@[a].id@ != conversations@[i as int].id@,
                decreases i - j,
            {
                if conversations[j].id == conversations[i].id {
                    proof {
                        if well_formed(conversations@, messages@, clock) {
                            assert(conversations@[j as int].id@ != conversations@[i as int].id@);
                        }
                    }
                    return None;
                }
                j = j + 1;
            }
            assert forall|a: int, b: int| 0 <= a < b < i + 1 implies conversations@[a].id@ != conversations@[b].id@
                && conversations@[a].updated_at < conversations@[b].updated_at by {
                if b == i && a < i - 1 {
                    assert(conversations@[a].updated_at < conversations@[i - 1].updated_at);
                }
            }
            i = i + 1;
        }
        let mut i: usize = 0;
        while i < messages.len()
            invariant
                i <= messages@.len(),
                well_formed(conversations@, Seq::empty(), clock),
                forall|a: int, b: int|
                    0 <= a < b < i ==> messages@[a].id@ != messages@[b].id@ && messages@[a].created_at < messages@[b].created_at,
                forall|a: int|
                    #![trigger messages@[a]]
                    0 <= a < i ==> messages@[a].created_at <= clock && has_conversation(conversations@, messages@[a].conversation_id@),
            decreases messages@.len() - i,
        {
            if messages[i].created_at > clock {
                proof {
                    if well_formed(conversations@, messages@, clock) {
                        assert(messages@[i as int].created_at <= clock);
                    }
                }
                return None;
            }
            if i > 0 && messages[i - 1].created_at >= messages[i].created_at {
                proof {
                    if well_formed(conversations@, messages@, clock) {
                        assert(messages@[i - 1].created_at < messages@[i as int].created_at);
                    }
                }
                return None;
            }
            if find_conversation(&conversations, &messages[i].conversation_id).is_none() {
                proof {
                    if well_formed(conversations@, messages@, clock) {
                        assert(has_conversation(conversations@, messages@[i as int].conversation_id@));
                    }
                }
                return None;
            }
            let mut j: usize = 0;
            while j < i
                invariant
                    j <= i < messages@.len(),
                    forall|a: int| 0 <= a < j ==> messages@[a].id@ != messages@[i as int].id@,
                decreases i - j,
            {
                if messages[j].id == messages[i].id {
                    proof {
                        if well_formed(conversations@, messages@, clock) {
                            assert(messages@[j as int].id@ != messages@[i as int].id@);
                        }
                    }
                    return None;
                }
                j = j + 1;
            }
            assert forall|a: int, b: int| 0 <= a < b < i + 1 implies messages@[a].id@ != messages@[b].id@
                && messages@[a].created_at < messages@[b].created_at by {
                if b == i && a < i - 1 {
                    assert(messages@[a].created_at < messages@[i - 1].created_at);
                }
            }
            i = i + 1;
        }
        Some(Store { conversations, messages, clock })
    }
}

pub open spec fn is_hex_digit(c: char) -> bool {
    ('0' <= c && c <= '9') || ('a' <= c && c <= 'f')
}

/// The hyphenated form of identifiers that the store hands out: 36
/// characters, hyphens at 8, 13, 18 and 23, lower-case hex digits elsewhere.
pub open spec fn well_formed_id(s: Seq<char>) -> bool {
    &&& s.len() == 36
    &&& forall|i: int|
        0 <= i < 36 ==> if i == 8 || i == 13 || i == 18 || i == 23 {
            #[trigger] s[i] == '-'
        } else {
            is_hex_digit(s[i])
        }
}

pub fn is_well_formed_id(s: &str) -> (r: bool)
    ensures
        r == well_formed_id(s@),
{
    let n = s.unicode_len();
    if n != 36 {
        return false;
    }
    let mut i: usize = 0;
    while i < 36
        invariant
            i <= 36,
            s@.len() == 36,
            forall|k: int|
                0 <= k < i ==> if k == 8 || k == 13 || k == 18 || k == 23 {
                    #[trigger] s@[k] == '-'
                } else {
                    is_hex_digit(s@[k])
                },
        decreases 36 - i,
    {
        let c = s.get_char(i);
        let ok = if i == 8 || i == 13 || i == 18 || i == 23 {
            c == '-'
        } else {
            ('0' <= c && c <= '9') || ('a' <= c && c <= 'f')
        };
        if !ok {
            return false;
        }
        i = i + 1;
    }
    true
}

/// Relies on chrono's `Utc::now` and `DateTime::timestamp_millis`: the wall
/// clock in milliseconds since the Unix epoch. Nothing is assumed of the value.
/// `Utc::now` panics only where the system clock reads before 1970.
#[verifier::external_body]
fn now_millis() -> (r: i64) {
    chrono::Utc::now().timestamp_millis()
}

/// Relies on uuid's `Uuid::new_v4` and its `Display`, which writes the
/// hyphenated form in lower-case hex digits: a random identifier of 36
/// characters with hyphens at 8, 13, 18 and 23.
#[verifier::external_body]
fn fresh_id() -> (r: String)
    ensures
        well_formed_id(r@),
{
    uuid::Uuid::new_v4().to_string()
}

fn find_conversation(cs: &Vec<Conversation>, id: &String) -> (r: Option<usize>)
    ensures
        match r {
            Some(i) => i < cs@.len() && cs@[i as int].id@ == id@,
            None => !has_conversation(cs@, id@),
        },
{
    let mut i: usize = 0;
    while i < cs.len()
        invariant
            i <= cs@.len(),
            forall|k: int| 0 <= k < i ==> cs@[k].id@ != id@,
        decreases cs@.len() - i,
    {
        if cs[i].id == *id {
            return Some(i);
        }
        i = i + 1;
    }
    None
}

fn find_message(ms: &Vec<Message>, id: &String) -> (r: Option<usize>)
    ensures
        match r {
            Some(i) => i < ms@.len() && ms@[i as int].id@ == id@,
            None => !has_message(ms@, id@),
        },
{
    let mut i: usize = 0;
    while i < ms.len()
        invariant
            i <= ms@.len(),
            forall|k: int| 0 <= k < i ==> ms@[k].id@ != id@,
        decreases ms@.len() - i,
    {
        if ms[i].id == *id {
            return Some(i);
        }
        i = i + 1;
    }
    None
}

/// Inserts a conversation under `id`, stamped with the store time for `now`
/// as both its creation and its last activity.
pub fn create_conversation_with(store: &mut Store, id: String, title: &str, model: &str, now: i64) -> (r: Result<String, StoreError>)
    requires
        old(store).wf(),
    ensures
        final(store).wf(),
        r == Err::<String, StoreError>(StoreError::ClockExhausted) <==> old(store).clock == i64::MAX,
        r == Err::<String, StoreError>(StoreError::DuplicateId) <==> old(store).clock < i64::MAX
            && has_conversation(old(store).conversations@, id@),
        r is Ok <==> !has_conversation(old(store).conversations@, id@) && old(store).clock < i64::MAX,
        r is Err ==> *final(store) == *old(store),
        r is Ok ==> {
            let c = final(store).conversations@.last();
            let t = next_stamp(old(store).clock, now);
            &&& r->Ok_0@ == id@
            &&& final(store).conversations@.drop_last() == old(store).conversations@
            &&& final(store).conversations@.len() == old(store).conversations@.len() + 1
            &&& c.id@ == id@ && c.title@ == title@ && c.model@ == model@
            &&& c.created_at == t && c.updated_at == t
            &&& final(store).messages@ == old(store).messages@
            &&& final(store).clock == t
        },
{
    if store.clock == i64::MAX {
        return Err(StoreError::ClockExhausted);
    }
    if find_conversation(&store.conversations, &id).is_some() {
        return Err(StoreError::DuplicateId);
    }
    let t: i64 = if now > store.clock { now } else { store.clock + 1 };
    let c = Conversation {
        id: id.clone(),
        title: String::from_str(title),
        model: String::from_str(model),
        created_at: t,
        updated_at: t,
    };
    let ghost old_cs = store.conversations@;
    store.conversations.push(c);
    store.clock = t;
    assert(store.conversations@.drop_last() =~= old_cs);
    assert forall|i: int| 0 <= i < store.messages@.len() implies has_conversation(
        store.conversations@,
        #[trigger] store.messages@[i].conversation_id@,
    ) by {
        assert(old(store).messages@[i] == store.messages@[i]);
        let j = choose|j: int| 0 <= j < old_cs.len() && old_cs[j].id@ == store.messages@[i].conversation_id@;
        assert(store.conversations@[j] == old_cs[j]);
    }
    Ok(id)
}

/// Creates a conversation with a fresh random identifier at the current time.
pub fn create_conversation(store: &mut Store, title: &str, model: &str) -> (r: Result<String, StoreError>)
    requires
        old(store).wf(),
    ensures
        final(store).wf(),
        old(store).clock == i64::MAX ==> r == Err::<String, StoreError>(StoreError::ClockExhausted),
        old(store).clock < i64::MAX && r is Err ==> r == Err::<String, StoreError>(StoreError::DuplicateId),
        r == Err::<String, StoreError>(StoreError::DuplicateId) ==> exists|j: int|
            0 <= j < old(store).conversations@.len() && well_formed_id(
                #[trigger] old(store).conversations@[j].id@,
            ),
        r is Err ==> *final(store) == *old(store),
        r is Ok ==> {
            let c = final(store).conversations@.last();
            &&& final(store).conversations@.drop_last() == old(store).conversations@
            &&& final(store).conversations@.len() == old(store).conversations@.len() + 1
            &&& c.id@ == r->Ok_0@ && well_formed_id(c.id@) && c.title@ == title@ && c.model@ == model@
            &&& c.created_at == c.updated_at && c.updated_at > old(store).clock
            &&& final(store).messages@ == old(store).messages@
        },
{
    let id = fresh_id();
    let now = now_millis();
    create_conversation_with(store, id, title, model, now)
}

/// The conversations, most recently active first.
pub fn get_conversations(store: &Store) -> (r: Vec<Conversation>)
    requires
        store.wf(),
    ensures
        r@ == store.conversations@.reverse(),
        forall|i: int, j: int| 0 <= i < j < r@.len() ==> r@[i].updated_at > r@[j].updated_at,
{
    let n = store.conversations.len();
    let mut out: Vec<Conversation> = Vec::new();
    let mut i: usize = n;
    while i > 0
        invariant
            i <= n,
            n == store.conversations@.len(),
            out@.len() == n - i,
            forall|k: int| 0 <= k < n - i ==> out@[k] == store.conversations@[n - 1 - k],
        decreases i,
    {
        i = i - 1;
        out.push(store.conversations[i].duplicate());
    }
    assert(out@ =~= store.conversations@.reverse());
    out
}

/// The messages of a conversation, oldest first; empty for an unknown one.
pub fn get_messages(store: &Store, conversation_id: &str) -> (r: Vec<Message>)
    requires
        store.wf(),
    ensures
        r@ == in_conversation(store.messages@, conversation_id@),
        forall|i: int, j: int| 0 <= i < j < r@.len() ==> r@[i].created_at < r@[j].created_at,
{
    let cid = String::from_str(conversation_id);
    let ms = &store.messages;
    let mut out: Vec<Message> = Vec::new();
    let mut i: usize = 0;
    while i < ms.len()
        invariant
            i <= ms@.len(),
            cid@ == conversation_id@,
            out@ == keep(ms@.take(i as int), owned_by(cid@)),
        decreases ms@.len() - i,
    {
        proof {
            lemma_keep_step(ms@, owned_by(cid@), i as int);
        }
        if ms[i].conversation_id == cid {
            out.push(ms[i].duplicate());
        }
        i = i + 1;
    }
    assert(ms@.take(ms@.len() as int) =~= ms@);
    proof {
        lemma_in_conversation_ascending(ms@, cid@);
    }
    out
}

/// The messages of a conversation keep the strict time order of the store.
pub proof fn lemma_in_conversation_ascending(ms: Seq<Message>, cid: Seq<char>)
    requires
        forall|i: int, j: int| 0 <= i < j < ms.len() ==> ms[i].created_at < ms[j].created_at,
    ensures
        forall|i: int, j: int|
            0 <= i < j < in_conversation(ms, cid).len() ==> in_conversation(ms, cid)[i].created_at
                < in_conversation(ms, cid)[j].created_at,
{
    let idx = crate::seqs::lemma_keep_indices(ms, owned_by(cid));
    assert forall|i: int, j: int|
        0 <= i < j < in_conversation(ms, cid).len() implies in_conversation(ms, cid)[i].created_at
        < in_conversation(ms, cid)[j].created_at by {
        assert(idx[i] < idx[j]);
        assert(in_conversation(ms, cid)[i] == ms[idx[i]]);
        assert(in_conversation(ms, cid)[j] == ms[idx[j]]);
    }
}

/// `c` with its last activity moved to `t`.
pub open spec fn touched(c: Conversation, t: i64) -> Conversation {
    Conversation {
        id: c.id,
        title: c.title,
        model: c.model,
        created_at: c.created_at,
        updated_at: t,
    }
}

/// `after` is `before` with `m` stored as the newest message and its
/// conversation moved to the most recently active place.
pub open spec fn appended(before: Store, after: Store, m: Message) -> bool {
    &&& after.messages@ == before.messages@.push(m)
    &&& after.clock == m.created_at
    &&& m.created_at > before.clock
    &&& forall|i: int|
        0 <= i < before.conversations@.len() && #[trigger] before.conversations@[i].id@
            == m.conversation_id@ ==> after.conversations@ == before.conversations@.remove(i).push(
            touched(before.conversations@[i], m.created_at),
        )
}

/// Stores message `id` in a conversation at the store time for `now`, and
/// makes that time the conversation's last activity, in one step.
pub fn add_message_with(
    store: &mut Store,
    id: String,
    conversation_id: &str,
    role: &str,
    content: &str,
    now: i64,
) -> (r: Result<Message, StoreError>)
    requires
        old(store).wf(),
    ensures
        final(store).wf(),
        r == Err::<Message, StoreError>(StoreError::InvalidRole) <==> role_of(role@) is None,
        r == Err::<Message, StoreError>(StoreError::UnknownConversation) <==> role_of(role@) is Some
            && !has_conversation(old(store).conversations@, conversation_id@),
        r == Err::<Message, StoreError>(StoreError::ClockExhausted) <==> role_of(role@) is Some
            && has_conversation(old(store).conversations@, conversation_id@) && old(store).clock
            == i64::MAX,
        r == Err::<Message, StoreError>(StoreError::DuplicateId) <==> role_of(role@) is Some
            && has_conversation(old(store).conversations@, conversation_id@) && old(store).clock
            < i64::MAX && has_message(old(store).messages@, id@),
        r is Ok <==> role_of(role@) is Some && has_conversation(old(store).conversations@, conversation_id@)
            && !has_message(old(store).messages@, id@) && old(store).clock < i64::MAX,
        r is Err ==> *final(store) == *old(store),
        r is Ok ==> {
            let m = r->Ok_0;
            &&& m.id@ == id@
            &&& m.conversation_id@ == conversation_id@
            &&& role_of(role@) == Some(m.role)
            &&& m.content@ == content@
            &&& m.created_at == next_stamp(old(store).clock, now)
            &&& appended(*old(store), *final(store), m)
        },
{
    let parsed = match Role::parse(role) {
        Some(x) => x,
        None => {
            return Err(StoreError::InvalidRole);
        },
    };
    let cid = String::from_str(conversation_id);
    let i = match find_conversation(&store.conversations, &cid) {
        Some(i) => i,
        None => {
            return Err(StoreError::UnknownConversation);
        },
    };
    if store.clock == i64::MAX {
        return Err(StoreError::ClockExhausted);
    }
    if find_message(&store.messages, &id).is_some() {
        return Err(StoreError::DuplicateId);
    }
    let t: i64 = if now > store.clock { now } else { store.clock + 1 };
    let m = Message { id, conversation_id: cid, role: parsed, content: String::from_str(content), created_at: t };
    let out = m.duplicate();
    let ghost before = *store;
    let ghost ocs = store.conversations@;
    store.messages.push(m);
    let mut c = store.conversations.remove(i);
    c.updated_at = t;
    store.conversations.push(c);
    store.clock = t;
    proof {
        let ncs = store.conversations@;
        let n = ocs.len();
        assert(ncs.len() == n);
        assert forall|a: int| 0 <= a < n - 1 implies #[trigger] ncs[a] == ocs[if a < i { a } else { a + 1 }] by {}
        assert(ncs[n - 1] == touched(ocs[i as int], t));
        assert forall|a: int, b: int| 0 <= a < b < ncs.len() implies ncs[a].id@ != ncs[b].id@
            && ncs[a].updated_at < ncs[b].updated_at by {
            let a2 = if a < i { a } else { a + 1 };
            assert(ncs[a] == ocs[a2]);
            if b < n - 1 {
                let b2 = if b < i { b } else { b + 1 };
                assert(ncs[b] == ocs[b2]);
            } else {
                assert(ocs[a2].updated_at <= before.clock);
            }
        }
        assert forall|k: int| 0 <= k < store.messages@.len() implies has_conversation(
            ncs,
            #[trigger] store.messages@[k].conversation_id@,
        ) by {
            if k < before.messages@.len() {
                assert(store.messages@[k] == before.messages@[k]);
                let j = choose|j: int| 0 <= j < n && #[trigger] ocs[j].id@ == store.messages@[k].conversation_id@;
                if j == i {
                    assert(ncs[n - 1].id@ == ocs[j].id@);
                } else if j < i {
                    assert(ncs[j] == ocs[j]);
                } else {
                    assert(ncs[j - 1] == ocs[j]);
                }
            } else {
                assert(ncs[n - 1].id@ == cid@);
            }
        }
        assert forall|a: int| 0 <= a < ocs.len() && #[trigger] ocs[a].id@ == cid@ implies ncs
            == ocs.remove(a).push(touched(ocs[a], t)) by {
            if a != i {
                assert(ocs[a].id@ != ocs[i as int].id@);
            }
            assert(ncs =~= ocs.remove(a).push(touched(ocs[a], t)));
        }
    }
    Ok(out)
}

/// Stores a message with a fresh random identifier at the current time.
pub fn add_message(store: &mut Store, conversation_id: &str, role: &str, content: &str) -> (r: Result<Message, StoreError>)
    requires
        old(store).wf(),
    ensures
        final(store).wf(),
        r == Err::<Message, StoreError>(StoreError::InvalidRole) <==> role_of(role@) is None,
        r == Err::<Message, StoreError>(StoreError::UnknownConversation) <==> role_of(role@) is Some
            && !has_conversation(old(store).conversations@, conversation_id@),
        role_of(role@) is Some && has_conversation(old(store).conversations@, conversation_id@)
            && old(store).clock == i64::MAX ==> r == Err::<Message, StoreError>(
            StoreError::ClockExhausted,
        ),
        role_of(role@) is Some && has_conversation(old(store).conversations@, conversation_id@)
            && old(store).clock < i64::MAX && r is Err ==> r == Err::<Message, StoreError>(
            StoreError::DuplicateId,
        ),
        r == Err::<Message, StoreError>(StoreError::DuplicateId) ==> exists|j: int|
            0 <= j < old(store).messages@.len() && well_formed_id(
                #[trigger] old(store).messages@[j].id@,
            ),
        r is Err ==> *final(store) == *old(store),
        r is Ok ==> {
            let m = r->Ok_0;
            &&& well_formed_id(m.id@)
            &&& m.conversation_id@ == conversation_id@
            &&& role_of(role@) == Some(m.role)
            &&& m.content@ == content@
            &&& appended(*old(store), *final(store), m)
        },
{
    let id = fresh_id();
    let now = now_millis();
    add_message_with(store, id, conversation_id, role, content, now)
}

/// Over any run of stores, each step storing one message, a conversation's
/// messages are what it held at the start followed by the messages stored
/// into it, in the order of the calls; where every step stores into that
/// conversation and it started empty, they are exactly the stored messages.
pub proof fn law_run_keeps_call_order(states: Seq<Store>, added: Seq<Message>, cid: Seq<char>)
    requires
        states.len() == added.len() + 1,
        forall|i: int| 0 <= i < added.len() ==> appended(states[i], states[i + 1], #[trigger] added[i]),
    ensures
        in_conversation(states.last().messages@, cid) == in_conversation(states[0].messages@, cid)
            + in_conversation(added, cid),
        (forall|i: int| 0 <= i < added.len() ==> (#[trigger] added[i]).conversation_id@ == cid)
            && in_conversation(states[0].messages@, cid).len() == 0 ==> in_conversation(
            states.last().messages@,
            cid,
        ) == added,
    decreases added.len(),
{
    let n = added.len() as int;
    if n == 0 {
        assert(in_conversation(added, cid) =~= Seq::<Message>::empty());
        assert(in_conversation(states[0].messages@, cid) + Seq::<Message>::empty() =~= in_conversation(
            states[0].messages@,
            cid,
        ));
    } else {
        let s2 = states.drop_last();
        let a2 = added.drop_last();
        assert forall|i: int| 0 <= i < a2.len() implies appended(s2[i], s2[i + 1], #[trigger] a2[i]) by {
            assert(appended(states[i], states[i + 1], added[i]));
        }
        law_run_keeps_call_order(s2, a2, cid);
        assert(appended(states[n - 1], states[n], added[n - 1]));
        law_messages_keep_call_order(states[n - 1], states[n], added[n - 1], cid);
        assert(a2.push(added[n - 1]) =~= added);
        lemma_keep_push(a2, owned_by(cid), added[n - 1]);
        let start = in_conversation(states[0].messages@, cid);
        if added[n - 1].conversation_id@ == cid {
            assert((start + in_conversation(a2, cid)).push(added[n - 1]) =~= start + in_conversation(
                a2,
                cid,
            ).push(added[n - 1]));
        }
    }
    if (forall|i: int| 0 <= i < added.len() ==> (#[trigger] added[i]).conversation_id@ == cid)
        && in_conversation(states[0].messages@, cid).len() == 0 {
        lemma_keep_all(added, owned_by(cid));
        assert(in_conversation(states[0].messages@, cid) + added =~= added);
    }
}

/// Each stored message joins the end of its conversation's messages, in the
/// order of the calls, and leaves every other conversation's messages as
/// they were.
pub proof fn law_messages_keep_call_order(before: Store, after: Store, m: Message, cid: Seq<char>)
    requires
        appended(before, after, m),
    ensures
        in_conversation(after.messages@, cid) == if m.conversation_id@ == cid {
            in_conversation(before.messages@, cid).push(m)
        } else {
            in_conversation(before.messages@, cid)
        },
{
    lemma_keep_push(before.messages@, owned_by(cid), m);
}

pub open spec fn other_conversation(id: Seq<char>) -> spec_fn(Conversation) -> bool {
    |c: Conversation| c.id@ != id
}

pub open spec fn not_owned_by(cid: Seq<char>) -> spec_fn(Message) -> bool {
    |m: Message| m.conversation_id@ != cid
}

/// The messages that a truncation of conversation `cid` at time `t` leaves.
pub open spec fn survives(cid: Seq<char>, t: i64) -> spec_fn(Message) -> bool {
    |m: Message| !(m.conversation_id@ == cid && m.created_at > t)
}

pub open spec fn at_or_before(t: i64) -> spec_fn(Message) -> bool {
    |m: Message| m.created_at <= t
}

/// The time of the message with identifier `id`, if one is stored.
pub open spec fn message_time(ms: Seq<Message>, id: Seq<char>) -> Option<i64> {
    if has_message(ms, id) {
        Some(ms[choose|j: int| 0 <= j < ms.len() && #[trigger] ms[j].id@ == id].created_at)
    } else {
        None
    }
}

/// Keeping some conversations and some messages keeps the store well formed,
/// as long as no kept message loses its conversation.
proof fn lemma_keep_wf(s: Store, t: Store, pc: spec_fn(Conversation) -> bool, pm: spec_fn(Message) -> bool)
    requires
        s.wf(),
        t.conversations@ == keep(s.conversations@, pc),
        t.messages@ == keep(s.messages@, pm),
        t.clock == s.clock,
        forall|k: int, j: int|
            0 <= k < s.messages@.len() && 0 <= j < s.conversations@.len() && pm(s.messages@[k])
                && s.conversations@[j].id@ == s.messages@[k].conversation_id@ ==> pc(
                s.conversations@[j],
            ),
    ensures
        t.wf(),
{
    let cs = s.conversations@;
    let ms = s.messages@;
    let ci = lemma_keep_indices(cs, pc);
    let mi = lemma_keep_indices(ms, pm);
    assert forall|a: int, b: int| 0 <= a < b < t.conversations@.len() implies t.conversations@[a].id@
        != t.conversations@[b].id@ && t.conversations@[a].updated_at < t.conversations@[b].updated_at by {
        assert(ci[a] < ci[b]);
    }
    assert forall|a: int| 0 <= a < t.conversations@.len() implies #[trigger] t.conversations@[a].updated_at <= t.clock by {
        assert(t.conversations@[a] == cs[ci[a]]);
    }
    assert forall|a: int, b: int| 0 <= a < b < t.messages@.len() implies t.messages@[a].id@ != t.messages@[b].id@
        && t.messages@[a].created_at < t.messages@[b].created_at by {
        assert(mi[a] < mi[b]);
    }
    assert forall|a: int| 0 <= a < t.messages@.len() implies #[trigger] t.messages@[a].created_at <= t.clock
        && has_conversation(t.conversations@, t.messages@[a].conversation_id@) by {
        let k = mi[a];
        assert(t.messages@[a] == ms[k]);
        assert(ms[k].created_at <= s.clock);
        let j = choose|j: int| 0 <= j < cs.len() && #[trigger] cs[j].id@ == ms[k].conversation_id@;
        lemma_keep_complete(cs, pc, j);
        let q = choose|q: int| 0 <= q < t.conversations@.len() && t.conversations@[q] == cs[j];
        assert(t.conversations@[q].id@ == t.messages@[a].conversation_id@);
    }
}

/// Removes a conversation and every message it owns; an unknown identifier
/// changes nothing.
pub fn delete_conversation(store: &mut Store, id: &str)
    requires
        old(store).wf(),
    ensures
        final(store).wf(),
        final(store).conversations@ == keep(old(store).conversations@, other_conversation(id@)),
        final(store).messages@ == keep(old(store).messages@, not_owned_by(id@)),
        final(store).clock == old(store).clock,
{
    let key = String::from_str(id);
    let ghost before = *store;
    let mut cs: Vec<Conversation> = Vec::new();
    let mut i: usize = 0;
    while i < store.conversations.len()
        invariant
            i <= store.conversations@.len(),
            key@ == id@,
            cs@ == keep(store.conversations@.take(i as int), other_conversation(id@)),
        decreases store.conversations@.len() - i,
    {
        proof {
            lemma_keep_step(store.conversations@, other_conversation(id@), i as int);
        }
        if store.conversations[i].id != key {
            cs.push(store.conversations[i].duplicate());
        }
        i = i + 1;
    }
    assert(store.conversations@.take(store.conversations@.len() as int) =~= store.conversations@);
    let mut ms: Vec<Message> = Vec::new();
    let mut i: usize = 0;
    while i < store.messages.len()
        invariant
            i <= store.messages@.len(),
            key@ == id@,
            ms@ == keep(store.messages@.take(i as int), not_owned_by(id@)),
        decreases store.messages@.len() - i,
    {
        proof {
            lemma_keep_step(store.messages@, not_owned_by(id@), i as int);
        }
        if store.messages[i].conversation_id != key {
            ms.push(store.messages[i].duplicate());
        }
        i = i + 1;
    }
    assert(store.messages@.take(store.messages@.len() as int) =~= store.messages@);
    store.conversations = cs;
    store.messages = ms;
    proof {
        lemma_keep_wf(before, *store, other_conversation(id@), not_owned_by(id@));
    }
}

/// After a conversation is deleted, reading its messages gives none.
pub proof fn law_deleted_conversation_has_no_messages(ms: Seq<Message>, id: Seq<char>)
    ensures
        in_conversation(keep(ms, not_owned_by(id)), id) == Seq::<Message>::empty(),
{
    let never = |m: Message| false;
    lemma_keep_keep(ms, owned_by(id), not_owned_by(id), never);
    lemma_keep_none(ms, never);
}

/// Sets the title of the conversation `id`; an unknown identifier changes
/// nothing.
pub fn update_conversation_title(store: &mut Store, id: &str, title: &str)
    requires
        old(store).wf(),
    ensures
        final(store).wf(),
        final(store).messages@ == old(store).messages@,
        final(store).clock == old(store).clock,
        final(store).conversations@.len() == old(store).conversations@.len(),
        forall|k: int|
            0 <= k < old(store).conversations@.len() ==> {
                let a = old(store).conversations@[k];
                let b = #[trigger] final(store).conversations@[k];
                if a.id@ == id@ {
                    b.id == a.id && b.title@ == title@ && b.model == a.model && b.created_at
                        == a.created_at && b.updated_at == a.updated_at
                } else {
                    b == a
                }
            },
{
    let key = String::from_str(id);
    let ghost before = *store;
    let mut cs: Vec<Conversation> = Vec::new();
    let mut i: usize = 0;
    while i < store.conversations.len()
        invariant
            i <= store.conversations@.len(),
            key@ == id@,
            *store == before,
            cs@.len() == i,
            forall|k: int|
                0 <= k < i ==> {
                    let a = store.conversations@[k];
                    let b = #[trigger] cs@[k];
                    if a.id@ == id@ {
                        b.id == a.id && b.title@ == title@ && b.model == a.model && b.created_at
                            == a.created_at && b.updated_at == a.updated_at
                    } else {
                        b == a
                    }
                },
        decreases store.conversations@.len() - i,
    {
        let c = &store.conversations[i];
        if c.id == key {
            cs.push(
                Conversation {
                    id: c.id.clone(),
                    title: String::from_str(title),
                    model: c.model.clone(),
                    created_at: c.created_at,
                    updated_at: c.updated_at,
                },
            );
        } else {
            cs.push(c.duplicate());
        }
        i = i + 1;
    }
    store.conversations = cs;
    proof {
        assert forall|k: int| 0 <= k < store.messages@.len() implies has_conversation(
            store.conversations@,
            #[trigger] store.messages@[k].conversation_id@,
        ) by {
            assert(before.messages@[k] == store.messages@[k]);
            let j = choose|j: int| 0 <= j < before.conversations@.len() && #[trigger] before.conversations@[j].id@
                == store.messages@[k].conversation_id@;
            assert(store.conversations@[j].id@ == before.conversations@[j].id@);
        }
    }
}

/// Sets the content of the message `id`; an unknown identifier changes
/// nothing.
pub fn update_message_content(store: &mut Store, id: &str, content: &str)
    requires
        old(store).wf(),
    ensures
        final(store).wf(),
        final(store).conversations@ == old(store).conversations@,
        final(store).clock == old(store).clock,
        final(store).messages@.len() == old(store).messages@.len(),
        forall|k: int|
            0 <= k < old(store).messages@.len() ==> {
                let a = old(store).messages@[k];
                let b = #[trigger] final(store).messages@[k];
                if a.id@ == id@ {
                    b.id == a.id && b.conversation_id == a.conversation_id && b.role == a.role
                        && b.content@ == content@ && b.created_at == a.created_at
                } else {
                    b == a
                }
            },
{
    let key = String::from_str(id);
    let ghost before = *store;
    let mut ms: Vec<Message> = Vec::new();
    let mut i: usize = 0;
    while i < store.messages.len()
        invariant
            i <= store.messages@.len(),
            key@ == id@,
            *store == before,
            ms@.len() == i,
            forall|k: int|
                0 <= k < i ==> {
                    let a = store.messages@[k];
                    let b = #[trigger] ms@[k];
                    if a.id@ == id@ {
                        b.id == a.id && b.conversation_id == a.conversation_id && b.role == a.role
                            && b.content@ == content@ && b.created_at == a.created_at
                    } else {
                        b == a
                    }
                },
        decreases store.messages@.len() - i,
    {
        let m = &store.messages[i];
        if m.id == key {
            ms.push(
                Message {
                    id: m.id.clone(),
                    conversation_id: m.conversation_id.clone(),
                    role: m.role,
                    content: String::from_str(content),
                    created_at: m.created_at,
                },
            );
        } else {
            ms.push(m.duplicate());
        }
        i = i + 1;
    }
    store.messages = ms;
    proof {
        assert forall|k: int| 0 <= k < store.messages@.len() implies #[trigger] store.messages@[k].created_at
            <= store.clock && has_conversation(
            store.conversations@,
            store.messages@[k].conversation_id@,
        ) by {
            assert(before.messages@[k].created_at <= before.clock);
        }
    }
}

/// Deletes every message of conversation `conversation_id` that is strictly
/// later than the message `after_message_id`. Where no message has that
/// identifier, nothing changes.
pub fn delete_messages_after(store: &mut Store, conversation_id: &str, after_message_id: &str)
    requires
        old(store).wf(),
    ensures
        final(store).wf(),
        final(store).conversations@ == old(store).conversations@,
        final(store).clock == old(store).clock,
        match message_time(old(store).messages@, after_message_id@) {
            None => final(store).messages@ == old(store).messages@,
            Some(t) => final(store).messages@ == keep(
                old(store).messages@,
                survives(conversation_id@, t),
            ),
        },
{
    let after = String::from_str(after_message_id);
    let j = match find_message(&store.messages, &after) {
        Some(j) => j,
        None => {
            return;
        },
    };
    let t = store.messages[j].created_at;
    proof {
        let c = choose|c: int| 0 <= c < store.messages@.len() && #[trigger] store.messages@[c].id@ == after@;
        if c != j {
            assert(store.messages@[c].id@ != store.messages@[j as int].id@);
        }
    }
    let key = String::from_str(conversation_id);
    let ghost before = *store;
    let mut ms: Vec<Message> = Vec::new();
    let mut i: usize = 0;
    while i < store.messages.len()
        invariant
            i <= store.messages@.len(),
            key@ == conversation_id@,
            ms@ == keep(store.messages@.take(i as int), survives(conversation_id@, t)),
        decreases store.messages@.len() - i,
    {
        proof {
            lemma_keep_step(store.messages@, survives(conversation_id@, t), i as int);
        }
        if !(store.messages[i].conversation_id == key && store.messages[i].created_at > t) {
            ms.push(store.messages[i].duplicate());
        }
        i = i + 1;
    }
    assert(store.messages@.take(store.messages@.len() as int) =~= store.messages@);
    store.messages = ms;
    proof {
        let all = |c: Conversation| true;
        lemma_keep_all(before.conversations@, all);
        lemma_keep_wf(before, *store, all, survives(conversation_id@, t));
    }
}

/// Truncating conversation `cid` at time `t` leaves exactly its messages at
/// or before `t`, in their order, and the messages of every other
/// conversation as they were.
pub proof fn law_truncation_keeps_up_to(ms: Seq<Message>, cid: Seq<char>, t: i64, other: Seq<char>)
    ensures
        in_conversation(keep(ms, survives(cid, t)), cid) == keep(in_conversation(ms, cid), at_or_before(t)),
        other != cid ==> in_conversation(keep(ms, survives(cid, t)), other) == in_conversation(ms, other),
{
    let both = |m: Message| m.conversation_id@ == cid && m.created_at <= t;
    lemma_keep_keep(ms, owned_by(cid), survives(cid, t), both);
    lemma_keep_keep(ms, at_or_before(t), owned_by(cid), both);
    if other != cid {
        lemma_keep_keep(ms, owned_by(other), survives(cid, t), owned_by(other));
    }
}

} // verus!
