//! The table of tracked sockets: descriptor to the text of the address it was
//! connected to (empty while not yet connected).
use vstd::prelude::*;
use std::collections::HashMap;

verus! {

broadcast use vstd::std_specs::hash::group_hash_axioms;

/// The table after tracking `fd`: an entry with empty address text, unless
/// `fd` already has one.
pub open spec fn added(m: Map<i32, Seq<char>>, fd: i32) -> Map<i32, Seq<char>> {
    if m.contains_key(fd) {
        m
    } else {
        m.insert(fd, Seq::<char>::empty())
    }
}

/// The table after recording `addr` for `fd`: only a tracked `fd` changes.
pub open spec fn addressed(m: Map<i32, Seq<char>>, fd: i32, addr: Seq<char>) -> Map<i32, Seq<char>> {
    if m.contains_key(fd) {
        m.insert(fd, addr)
    } else {
        m
    }
}

/// After `add(fd)` the descriptor is tracked, after `remove(fd)` it is not,
/// adding twice is adding once, and recording an address for an untracked
/// descriptor leaves the table as it was.
pub proof fn lemma_table_laws(m: Map<i32, Seq<char>>, fd: i32, addr: Seq<char>)
    ensures
        added(m, fd).contains_key(fd),
        !m.remove(fd).contains_key(fd),
        added(added(m, fd), fd) == added(m, fd),
        !m.contains_key(fd) ==> addressed(m, fd, addr) == m,
{
}

/// Descriptors of tracked sockets, each with its address text.
pub struct MonitoredSockets {
    map: HashMap<i32, String>,
}

impl View for MonitoredSockets {
    type V = Map<i32, Seq<char>>;

    closed spec fn view(&self) -> Map<i32, Seq<char>> {
        self.map@.map_values(|v: String| v@)
    }
}

impl MonitoredSockets {
    /// An empty table.
    pub fn new() -> (r: MonitoredSockets)
        ensures
            r@ == Map::<i32, Seq<char>>::empty(),
    {
        let r = MonitoredSockets { map: HashMap::new() };
        assert(r@ =~= Map::<i32, Seq<char>>::empty());
        r
    }

    /// The address text recorded for `fd`, if it is tracked.
    pub fn address_of(&self, fd: i32) -> (r: Option<String>)
        ensures
            match r {
                Some(s) => self@.contains_key(fd) && s@ == self@[fd],
                None => !self@.contains_key(fd),
            },
    {
        match self.map.get(&fd) {
            Some(s) => Some(s.clone()),
            None => None,
        }
    }
}

/// Whether `fd` is tracked.
pub fn contains(t: &MonitoredSockets, fd: i32) -> (r: bool)
    ensures
        r == t@.contains_key(fd),
{
    t.map.contains_key(&fd)
}

/// Starts tracking `fd` with empty address text; a tracked `fd` keeps its entry.
/// The check and the insert happen under one exclusive borrow, so a caller
/// that holds one lock over the table makes them a single atomic step.
pub fn add(t: &mut MonitoredSockets, fd: i32)
    ensures
        final(t)@ == added(old(t)@, fd),
{
    if !contains(t, fd) {
        let e = String::new();
        t.map.insert(fd, e);
        assert(t@ =~= old(t)@.insert(fd, Seq::<char>::empty()));
    }
}

/// Records `addr` as the address text of `fd`, where `fd` is tracked.
/// The check and the update happen under one exclusive borrow, so a caller
/// that holds one lock over the table makes them a single atomic step.
pub fn set_socket_addr(t: &mut MonitoredSockets, fd: i32, addr: &str)
    ensures
        final(t)@ == addressed(old(t)@, fd, addr@),
{
    if contains(t, fd) {
        t.map.remove(&fd);
        let s = addr.to_owned();
        assert(s@ == addr@);
        t.map.insert(fd, s);
        assert(t@ =~= old(t)@.insert(fd, addr@));
    }
}

/// Stops tracking `fd`; an untracked `fd` leaves the table as it is.
pub fn remove(t: &mut MonitoredSockets, fd: i32)
    ensures
        final(t)@ == old(t)@.remove(fd),
{
    if contains(t, fd) {
        t.map.remove(&fd);
        assert(t@ =~= old(t)@.remove(fd));
    } else {
        assert(old(t)@.remove(fd) =~= old(t)@);
    }
}

} // verus!
