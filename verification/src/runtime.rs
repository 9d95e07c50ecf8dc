//! The runtime's file-backed small lists and their update rules. The files
//! themselves are read and written by the caller.

use vstd::prelude::*;

verus! {

/// A message queued for later delivery to another agent.
#[derive(Debug)]
pub struct SentMessage {
    pub recipient: String,
    pub message: String,
}

impl SentMessage {
    /// An equal copy.
    pub fn duplicate(&self) -> (r: Self)
        ensures
            r == *self,
    {
        SentMessage { recipient: self.recipient.clone(), message: self.message.clone() }
    }
}

/// The runtime's small persisted lists: trusted agents, known link
/// languages, friends, and the outbox. The caller loads them from their
/// files once and persists them again after each change.
pub struct Runtime {
    pub trusted_agents: Vec<String>,
    pub know_link_languages: Vec<String>,
    pub friends: Vec<String>,
    pub outbox: Vec<SentMessage>,
}

impl Runtime {
    /// Empty lists, as on first start with no files present.
    pub fn new() -> (r: Self)
        ensures
            r.trusted_agents@ =~= Seq::<String>::empty(),
            r.know_link_languages@ =~= Seq::<String>::empty(),
            r.friends@ =~= Seq::<String>::empty(),
            r.outbox@ =~= Seq::<SentMessage>::empty(),
    {
        Runtime {
            trusted_agents: Vec::new(),
            know_link_languages: Vec::new(),
            friends: Vec::new(),
            outbox: Vec::new(),
        }
    }
}

/// An equal copy of a list of strings.
fn copy_strings(v: &Vec<String>) -> (r: Vec<String>)
    ensures
        r@ == v@,
{
    let mut out: Vec<String> = Vec::new();
    let n = v.len();
    let mut i: usize = 0;
    while i < n
        invariant
            n == v@.len(),
            i <= n,
            out@ =~= v@.subrange(0, i as int),
        decreases n - i,
    {
        out.push(v[i].clone());
        proof {
            assert(out@ =~= v@.subrange(0, i as int + 1));
        }
        i = i + 1;
    }
    proof {
        assert(out@ =~= v@);
    }
    out
}

/// Whether some entry of `v` holds exactly the characters `s`.
pub open spec fn has_string(v: Seq<String>, s: Seq<char>) -> bool {
    exists|i: int| 0 <= i < v.len() && v[i]@ == s
}

/// Whether `needle` occurs in `v`.
fn contains_string(v: &Vec<String>, needle: &String) -> (r: bool)
    ensures
        r == has_string(v@, needle@),
{
    let n = v.len();
    let mut i: usize = 0;
    while i < n
        invariant
            n == v@.len(),
            i <= n,
            forall|j: int| 0 <= j < i ==> v@[j]@ != needle@,
        decreases n - i,
    {
        if v[i] == *needle {
            return true;
        }
        i = i + 1;
    }
    false
}

/// `list` without every entry that occurs in `to_remove`.
fn remove_all(list: &Vec<String>, to_remove: &Vec<String>) -> (r: Vec<String>)
    ensures
        r@ == list@.filter(|a: String| !has_string(to_remove@, a@)),
{
    let mut out: Vec<String> = Vec::new();
    let n = list.len();
    let mut i: usize = 0;
    assert(list@.subrange(0, 0).filter(|a: String| !has_string(to_remove@, a@)) =~= Seq::<
        String,
    >::empty()) by {
        reveal(Seq::filter);
    }
    while i < n
        invariant
            n == list@.len(),
            i <= n,
            out@ == list@.subrange(0, i as int).filter(
                |a: String| !has_string(to_remove@, a@),
            ),
        decreases n - i,
    {
        let taken = !contains_string(to_remove, &list[i]);
        if taken {
            out.push(list[i].clone());
        }
        proof {
            let pred = |a: String| !has_string(to_remove@, a@);
            let prefix = list@.subrange(0, i as int);
            let next = list@.subrange(0, i as int + 1);
            assert(next =~= prefix.push(list@[i as int]));
            reveal(Seq::filter);
            assert(next.drop_last() =~= prefix);
            assert(next.filter(pred) == prefix.filter(pred) + (if pred(list@[i as int]) {
                seq![list@[i as int]]
            } else {
                Seq::<String>::empty()
            }));
            if taken {
                assert(out@ =~= prefix.filter(pred) + seq![list@[i as int]]);
            } else {
                assert(out@ =~= prefix.filter(pred));
            }
        }
        i = i + 1;
    }
    proof {
        assert(list@.subrange(0, n as int) =~= list@);
    }
    out
}

/// The trusted agents, in stored order.
pub fn get_trusted_agents(rt: &Runtime) -> (r: Vec<String>)
    ensures
        r@ == rt.trusted_agents@,
{
    copy_strings(&rt.trusted_agents)
}

/// Appends agents to the trusted list; duplicates are kept.
pub fn add_trusted_agent(rt: &mut Runtime, new_agents: Vec<String>)
    ensures
        final(rt).trusted_agents@ == old(rt).trusted_agents@ + new_agents@,
        final(rt).know_link_languages == old(rt).know_link_languages,
        final(rt).friends == old(rt).friends,
        final(rt).outbox == old(rt).outbox,
{
    let mut incoming = new_agents;
    rt.trusted_agents.append(&mut incoming);
}

/// Drops every occurrence of each listed agent, keeping the order of the
/// rest.
pub fn remove_trusted_agent(rt: &mut Runtime, agents_to_remove: Vec<String>)
    ensures
        final(rt).trusted_agents@ == old(rt).trusted_agents@.filter(
            |a: String| !has_string(agents_to_remove@, a@),
        ),
        final(rt).know_link_languages == old(rt).know_link_languages,
        final(rt).friends == old(rt).friends,
        final(rt).outbox == old(rt).outbox,
{
    rt.trusted_agents = remove_all(&rt.trusted_agents, &agents_to_remove);
}

/// The known link languages, in stored order.
pub fn get_know_link_languages(rt: &Runtime) -> (r: Vec<String>)
    ensures
        r@ == rt.know_link_languages@,
{
    copy_strings(&rt.know_link_languages)
}

/// Appends link languages to the known list; duplicates are kept.
pub fn add_know_link_language(rt: &mut Runtime, language: Vec<String>)
    ensures
        final(rt).know_link_languages@ == old(rt).know_link_languages@ + language@,
        final(rt).trusted_agents == old(rt).trusted_agents,
        final(rt).friends == old(rt).friends,
        final(rt).outbox == old(rt).outbox,
{
    let mut incoming = language;
    rt.know_link_languages.append(&mut incoming);
}

/// Drops every occurrence of each listed language, keeping the order of the
/// rest.
pub fn remove_know_link_language(rt: &mut Runtime, language_to_remove: Vec<String>)
    ensures
        final(rt).know_link_languages@ == old(rt).know_link_languages@.filter(
            |a: String| !has_string(language_to_remove@, a@),
        ),
        final(rt).trusted_agents == old(rt).trusted_agents,
        final(rt).friends == old(rt).friends,
        final(rt).outbox == old(rt).outbox,
{
    rt.know_link_languages = remove_all(&rt.know_link_languages, &language_to_remove);
}

/// The friends, in stored order.
pub fn get_friends(rt: &Runtime) -> (r: Vec<String>)
    ensures
        r@ == rt.friends@,
{
    copy_strings(&rt.friends)
}

/// Appends friends to the list; duplicates are kept.
pub fn add_friend(rt: &mut Runtime, friend: Vec<String>)
    ensures
        final(rt).friends@ == old(rt).friends@ + friend@,
        final(rt).trusted_agents == old(rt).trusted_agents,
        final(rt).know_link_languages == old(rt).know_link_languages,
        final(rt).outbox == old(rt).outbox,
{
    let mut incoming = friend;
    rt.friends.append(&mut incoming);
}

/// Drops every occurrence of each listed friend, keeping the order of the
/// rest.
pub fn remove_friend(rt: &mut Runtime, friend_to_remove: Vec<String>)
    ensures
        final(rt).friends@ == old(rt).friends@.filter(
            |a: String| !has_string(friend_to_remove@, a@),
        ),
        final(rt).trusted_agents == old(rt).trusted_agents,
        final(rt).know_link_languages == old(rt).know_link_languages,
        final(rt).outbox == old(rt).outbox,
{
    rt.friends = remove_all(&rt.friends, &friend_to_remove);
}

/// The outbox, oldest message first.
pub fn get_outbox(rt: &Runtime) -> (r: Vec<SentMessage>)
    ensures
        r@ == rt.outbox@,
{
    let mut out: Vec<SentMessage> = Vec::new();
    let n = rt.outbox.len();
    let mut i: usize = 0;
    while i < n
        invariant
            n == rt.outbox@.len(),
            i <= n,
            out@ =~= rt.outbox@.subrange(0, i as int),
        decreases n - i,
    {
        out.push(rt.outbox[i].duplicate());
        proof {
            assert(out@ =~= rt.outbox@.subrange(0, i as int + 1));
        }
        i = i + 1;
    }
    proof {
        assert(out@ =~= rt.outbox@);
    }
    out
}

/// Appends one message to the outbox.
pub fn add_message_to_outbox(rt: &mut Runtime, message: SentMessage)
    ensures
        final(rt).outbox@ == old(rt).outbox@.push(message),
        final(rt).trusted_agents == old(rt).trusted_agents,
        final(rt).know_link_languages == old(rt).know_link_languages,
        final(rt).friends == old(rt).friends,
{
    rt.outbox.push(message);
}

} // verus!
