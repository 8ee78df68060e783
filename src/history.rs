use vstd::prelude::*;

use crate::model::{role_name, ChatMessage, Message};

verus! {

/// `c` carries the role and content of `m`, and nothing else of it.
pub open spec fn projects(m: Message, c: ChatMessage) -> bool {
    c.role@ == role_name(m.role) && c.content@ == m.content@
}

/// `cs` is `ms` projected element by element.
pub open spec fn projects_all(ms: Seq<Message>, cs: Seq<ChatMessage>) -> bool {
    &&& cs.len() == ms.len()
    &&& forall|i: int| 0 <= i < ms.len() ==> projects(ms[i], #[trigger] cs[i])
}

/// The role/content pairs of stored messages, in the same order.
pub fn project_history(ms: &Vec<Message>) -> (r: Vec<ChatMessage>)
    ensures
        projects_all(ms@, r@),
{
    let mut out: Vec<ChatMessage> = Vec::new();
    let mut i: usize = 0;
    while i < ms.len()
        invariant
            i <= ms@.len(),
            projects_all(ms@.take(i as int), out@),
        decreases ms@.len() - i,
    {
        let m = &ms[i];
        out.push(ChatMessage { role: String::from_str(m.role.as_str()), content: m.content.clone() });
        i = i + 1;
    }
    assert(ms@.take(ms@.len() as int) =~= ms@);
    out
}

} // verus!
