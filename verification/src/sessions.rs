//! Which session each player is in. A player has at most one.
use vstd::prelude::*;

verus! {

/// Live sessions by username. A session goes by a number that no other live
/// session has.
#[derive(Debug)]
pub struct Sessions {
    entries: Vec<(String, u64)>,
}

/// The sessions that `entries` list; each name is listed once.
spec fn entries_map(entries: Seq<(String, u64)>) -> Map<Seq<char>, u64>
    decreases entries.len(),
{
    if entries.len() == 0 {
        Map::empty()
    } else {
        entries_map(entries.drop_last()).insert(entries.last().0@, entries.last().1)
    }
}

spec fn distinct_names(entries: Seq<(String, u64)>) -> bool {
    forall|i: int, j: int|
        0 <= i < j < entries.len() ==> (#[trigger] entries[i]).0@ != (#[trigger] entries[j]).0@
}

proof fn lemma_entry(entries: Seq<(String, u64)>, i: int)
    requires
        distinct_names(entries),
        0 <= i < entries.len(),
    ensures
        entries_map(entries).contains_key(entries[i].0@),
        entries_map(entries)[entries[i].0@] == entries[i].1,
    decreases entries.len(),
{
    if i < entries.len() - 1 {
        lemma_entry(entries.drop_last(), i);
    }
}

proof fn lemma_no_entry(entries: Seq<(String, u64)>, name: Seq<char>)
    requires
        forall|i: int| 0 <= i < entries.len() ==> (#[trigger] entries[i]).0@ != name,
    ensures
        !entries_map(entries).contains_key(name),
    decreases entries.len(),
{
    if entries.len() > 0 {
        lemma_no_entry(entries.drop_last(), name);
    }
}

proof fn lemma_remove_entry(entries: Seq<(String, u64)>, i: int)
    requires
        distinct_names(entries),
        0 <= i < entries.len(),
    ensures
        distinct_names(entries.remove(i)),
        entries_map(entries.remove(i)) == entries_map(entries).remove(entries[i].0@),
    decreases entries.len(),
{
    let name = entries[i].0@;
    if i == entries.len() - 1 {
        assert(entries.remove(i) =~= entries.drop_last());
        lemma_no_entry(entries.drop_last(), name);
        assert(entries_map(entries).remove(name) =~= entries_map(entries.drop_last()));
    } else {
        lemma_remove_entry(entries.drop_last(), i);
        assert(entries.remove(i).drop_last() =~= entries.drop_last().remove(i));
        assert(entries.remove(i).last() == entries.last());
        assert(entries_map(entries.remove(i)) =~= entries_map(entries).remove(name));
    }
}

impl View for Sessions {
    type V = Map<Seq<char>, u64>;

    closed spec fn view(&self) -> Map<Seq<char>, u64> {
        entries_map(self.entries@)
    }
}

/// The session of a player, if there is one.
pub open spec fn session_of(sessions: Map<Seq<char>, u64>, name: Seq<char>) -> Option<u64> {
    if sessions.contains_key(name) {
        Some(sessions[name])
    } else {
        None
    }
}

/// The sessions after session `id` of a player has ended: one that has taken its
/// place stays.
pub open spec fn without_session(
    sessions: Map<Seq<char>, u64>,
    name: Seq<char>,
    id: u64,
) -> Map<Seq<char>, u64> {
    if session_of(sessions, name) == Some(id) {
        sessions.remove(name)
    } else {
        sessions
    }
}

fn find_name(entries: &Vec<(String, u64)>, name: &str) -> (found: Option<usize>)
    requires
        distinct_names(entries@),
    ensures
        match found {
            Some(i) => i < entries@.len() && entries@[i as int].0@ == name@ && session_of(
                entries_map(entries@),
                name@,
            ) == Some(entries@[i as int].1),
            None => session_of(entries_map(entries@), name@) is None && forall|i: int|
                0 <= i < entries@.len() ==> (#[trigger] entries@[i]).0@ != name@,
        },
{
    let key: String = name.to_owned();
    let mut i: usize = 0;
    while i < entries.len()
        invariant
            i <= entries.len(),
            key@ == name@,
            distinct_names(entries@),
            forall|j: int| 0 <= j < i ==> (#[trigger] entries@[j]).0@ != name@,
        decreases entries.len() - i,
    {
        if entries[i].0 == key {
            proof {
                lemma_entry(entries@, i as int);
            }
            return Some(i);
        }
        i += 1;
    }
    proof {
        lemma_no_entry(entries@, name@);
    }
    None
}

impl Sessions {
    #[verifier::type_invariant]
    spec fn inv(self) -> bool {
        distinct_names(self.entries@)
    }

    /// No sessions.
    pub fn new() -> (sessions: Sessions)
        ensures
            sessions@ == Map::<Seq<char>, u64>::empty(),
    {
        Sessions { entries: Vec::new() }
    }

    /// The session of a player, if there is one.
    pub fn current(&self, name: &str) -> (id: Option<u64>)
        ensures
            id == session_of(self@, name@),
    {
        proof {
            use_type_invariant(self);
        }
        match find_name(&self.entries, name) {
            Some(i) => Some(self.entries[i].1),
            None => None,
        }
    }

    /// Makes `id` the session of a player and returns the one it replaces, which
    /// has to be closed.
    pub fn register(&mut self, name: &str, id: u64) -> (previous: Option<u64>)
        ensures
            previous == session_of(old(self)@, name@),
            final(self)@ == old(self)@.insert(name@, id),
    {
        proof {
            use_type_invariant(&*self);
        }
        let mut entries: Vec<(String, u64)> = Vec::new();
        std::mem::swap(&mut entries, &mut self.entries);
        let ghost before = entries@;
        let mut previous: Option<u64> = None;
        if let Some(i) = find_name(&entries, name) {
            let entry = entries.remove(i);
            previous = Some(entry.1);
            proof {
                lemma_remove_entry(before, i as int);
            }
        }
        let ghost others = entries@;
        proof {
            assert forall|i: int| 0 <= i < others.len() implies (#[trigger] others[i]).0@
                != name@ by {
                lemma_entry(others, i);
            }
        }
        entries.push((name.to_owned(), id));
        proof {
            assert(entries@.drop_last() =~= others);
            assert(entries_map(entries@) =~= entries_map(before).insert(name@, id));
        }
        self.entries = entries;
        previous
    }

    /// Takes the session `id` of a player off the list, unless another one has
    /// taken its place already.
    pub fn deregister(&mut self, name: &str, id: u64)
        ensures
            final(self)@ == without_session(old(self)@, name@, id),
    {
        proof {
            use_type_invariant(&*self);
        }
        let mut entries: Vec<(String, u64)> = Vec::new();
        std::mem::swap(&mut entries, &mut self.entries);
        let ghost before = entries@;
        if let Some(i) = find_name(&entries, name) {
            if entries[i].1 == id {
                proof {
                    lemma_remove_entry(before, i as int);
                }
                entries.remove(i);
            }
        }
        self.entries = entries;
    }
}

/// A reconnect takes over: the player's previous session is named to be closed,
/// and when it ends it leaves the new one on the list.
pub proof fn law_newer_session_stays(
    sessions: Map<Seq<char>, u64>,
    name: Seq<char>,
    first: u64,
    second: u64,
)
    requires
        first != second,
    ensures
        session_of(sessions.insert(name, first), name) == Some(first),
        ({
            let both = sessions.insert(name, first).insert(name, second);
            &&& without_session(both, name, first) == both
            &&& session_of(both, name) == Some(second)
        }),
{
}

/// A session that comes and goes leaves nothing behind.
pub proof fn law_session_leaves_no_trace(
    sessions: Map<Seq<char>, u64>,
    name: Seq<char>,
    id: u64,
)
    requires
        !sessions.contains_key(name),
    ensures
        without_session(sessions.insert(name, id), name, id) == sessions,
{
    assert(sessions.insert(name, id).remove(name) =~= sessions);
}

/// One player's session never touches another's.
pub proof fn law_sessions_are_separate(
    sessions: Map<Seq<char>, u64>,
    name: Seq<char>,
    id: u64,
    other: Seq<char>,
)
    requires
        name != other,
    ensures
        session_of(sessions.insert(name, id), other) == session_of(sessions, other),
        session_of(without_session(sessions, name, id), other) == session_of(sessions, other),
{
}

/// A player's session is the one that is listed for them.
pub proof fn law_session_is_looked_up(sessions: Map<Seq<char>, u64>, name: Seq<char>, id: u64)
    ensures
        session_of(sessions, name) == Some(id) <==> sessions.contains_key(name) && sessions[name]
            == id,
        session_of(sessions, name) is None <==> !sessions.contains_key(name),
        session_of(sessions, name) == Some(id) ==> without_session(sessions, name, id)
            == sessions.remove(name),
        session_of(sessions, name) != Some(id) ==> without_session(sessions, name, id) == sessions,
{
}

/// Registering hands out the player's session of before and makes the new one
/// theirs; nobody else's session changes.
pub proof fn law_register_takes_over(
    sessions: &mut Sessions,
    name: &str,
    id: u64,
    previous: Option<u64>,
    before: Option<u64>,
    after: Option<u64>,
    other: &str,
    other_before: Option<u64>,
    other_after: Option<u64>,
)
    requires
        call_ensures(Sessions::current, (&*old(sessions), name), before),
        call_ensures(Sessions::current, (&*old(sessions), other), other_before),
        call_ensures(Sessions::register, (sessions, name, id), previous),
        call_ensures(Sessions::current, (&*final(sessions), name), after),
        call_ensures(Sessions::current, (&*final(sessions), other), other_after),
    ensures
        previous == before,
        after == Some(id),
        other@ != name@ ==> other_after == other_before,
{
}

/// Deregistering ends the player's session if it is the given one, and else
/// leaves it; nobody else's session changes.
pub proof fn law_deregister_ends_its_own_session(
    sessions: &mut Sessions,
    name: &str,
    id: u64,
    before: Option<u64>,
    after: Option<u64>,
    other: &str,
    other_before: Option<u64>,
    other_after: Option<u64>,
)
    requires
        call_ensures(Sessions::current, (&*old(sessions), name), before),
        call_ensures(Sessions::current, (&*old(sessions), other), other_before),
        call_ensures(Sessions::deregister, (sessions, name, id), ()),
        call_ensures(Sessions::current, (&*final(sessions), name), after),
        call_ensures(Sessions::current, (&*final(sessions), other), other_after),
    ensures
        before == Some(id) ==> after is None,
        before != Some(id) ==> after == before,
        other@ != name@ ==> other_after == other_before,
{
}

/// At first nobody has a session.
pub proof fn law_no_sessions_at_first(sessions: Sessions, name: &str, found: Option<u64>)
    requires
        call_ensures(Sessions::new, (), sessions),
        call_ensures(Sessions::current, (&sessions, name), found),
    ensures
        found is None,
{
}

} // verus!
