//! The emote commands' pure logic: the stored emote entries, the reply
//! kinds a command hands back, the lookup the react command performs, and
//! the admin check of the pardon command.

use vstd::prelude::*;

verus! {

/// One stored custom emote: a name and the emote's identifier.
#[derive(Clone, Debug)]
pub struct Emote {
    pub name: String,
    pub emote: String,
}

/// A command's reply: shown to the whole channel, or only to its author.
#[derive(Clone, Debug)]
pub enum Response {
    Shown(String),
    Hidden(String),
}

/// Whether entry `e` answers `query`, by name or by identifier.
pub open spec fn spec_emote_matches(e: Emote, query: Seq<char>) -> bool {
    e.name@ == query || e.emote@ == query
}

/// The first stored emote whose name or identifier equals `query`, as the
/// react command looks it up.
pub fn find_emote(emotes: &Vec<Emote>, query: &String) -> (r: Option<usize>)
    ensures
        match r {
            Some(i) => i < emotes@.len() && spec_emote_matches(emotes@[i as int], query@) && forall|
                j: int,
            | 0 <= j < i ==> !spec_emote_matches(emotes@[j], query@),
            None => forall|j: int| 0 <= j < emotes@.len() ==> !spec_emote_matches(emotes@[j], query@),
        },
{
    let mut i: usize = 0;
    while i < emotes.len()
        invariant
            i <= emotes@.len(),
            forall|j: int| 0 <= j < i ==> !spec_emote_matches(emotes@[j], query@),
        decreases emotes@.len() - i,
    {
        let e = &emotes[i];
        if e.name == *query || e.emote == *query {
            return Some(i);
        }
        i = i + 1;
    }
    None
}

/// Whether an emote of this `name` is already stored, as the
/// creation command checks before adding one.
pub fn has_emote_named(emotes: &Vec<Emote>, name: &String) -> (r: bool)
    ensures
        r == exists|j: int| 0 <= j < emotes@.len() && emotes@[j].name@ == name@,
{
    let mut i: usize = 0;
    while i < emotes.len()
        invariant
            i <= emotes@.len(),
            forall|j: int| 0 <= j < i ==> emotes@[j].name@ != name@,
        decreases emotes@.len() - i,
    {
        let e = &emotes[i];
        if e.name == *name {
            return true;
        }
        i = i + 1;
    }
    false
}

/// Whether `user` is on the admin list, as the pardon command demands.
pub fn is_admin(admins: &Vec<u64>, user: u64) -> (r: bool)
    ensures
        r == admins@.contains(user),
{
    let mut i: usize = 0;
    while i < admins.len()
        invariant
            i <= admins@.len(),
            forall|j: int| 0 <= j < i ==> admins@[j] != user,
        decreases admins@.len() - i,
    {
        if admins[i] == user {
            return true;
        }
        i = i + 1;
    }
    false
}

} // verus!
