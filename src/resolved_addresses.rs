//! The table of resolved addresses: IP text to the hostname that resolved to it.
use vstd::prelude::*;

verus! {

/// Sentinel returned for an IP that no resolution produced.
pub open spec fn not_available() -> Seq<char> {
    seq!['n', '/', 'a']
}

/// What a lookup of `ip` gives: its hostname, or the sentinel.
pub open spec fn lookup(m: Map<Seq<char>, Seq<char>>, ip: Seq<char>) -> Seq<char> {
    if m.contains_key(ip) {
        m[ip]
    } else {
        not_available()
    }
}

/// An IP that was never recorded looks up to the sentinel; of two records of
/// one IP, the later one is what a lookup gives.
pub proof fn lemma_lookup_laws(
    m: Map<Seq<char>, Seq<char>>,
    ip: Seq<char>,
    node: Seq<char>,
    node2: Seq<char>,
)
    ensures
        !m.contains_key(ip) ==> lookup(m, ip) == not_available(),
        lookup(m.insert(ip, node).insert(ip, node2), ip) == node2,
{
}

/// The map that a list of (ip, hostname) pairs describes, later pairs winning.
pub open spec fn pairs_map(s: Seq<(Seq<char>, Seq<char>)>) -> Map<Seq<char>, Seq<char>>
    decreases s.len(),
{
    if s.len() == 0 {
        Map::empty()
    } else {
        pairs_map(s.drop_last()).insert(s.last().0, s.last().1)
    }
}

pub open spec fn keys_unique(s: Seq<(Seq<char>, Seq<char>)>) -> bool {
    forall|i: int, j: int| 0 <= i < j < s.len() ==> s[i].0 != s[j].0
}

proof fn lemma_absent(s: Seq<(Seq<char>, Seq<char>)>, k: Seq<char>)
    requires
        forall|j: int| 0 <= j < s.len() ==> s[j].0 != k,
    ensures
        !pairs_map(s).contains_key(k),
    decreases s.len(),
{
    if s.len() > 0 {
        lemma_absent(s.drop_last(), k);
    }
}

proof fn lemma_present(s: Seq<(Seq<char>, Seq<char>)>, i: int)
    requires
        keys_unique(s),
        0 <= i < s.len(),
    ensures
        pairs_map(s).contains_key(s[i].0),
        pairs_map(s)[s[i].0] == s[i].1,
    decreases s.len(),
{
    if i < s.len() - 1 {
        lemma_present(s.drop_last(), i);
    }
}

proof fn lemma_update(s: Seq<(Seq<char>, Seq<char>)>, i: int, v: Seq<char>)
    requires
        keys_unique(s),
        0 <= i < s.len(),
    ensures
        pairs_map(s.update(i, (s[i].0, v))) == pairs_map(s).insert(s[i].0, v),
        keys_unique(s.update(i, (s[i].0, v))),
    decreases s.len(),
{
    let t = s.update(i, (s[i].0, v));
    if i == s.len() - 1 {
        assert(t.drop_last() =~= s.drop_last());
        lemma_absent(s.drop_last(), s[i].0);
        assert(pairs_map(t) =~= pairs_map(s).insert(s[i].0, v));
    } else {
        lemma_update(s.drop_last(), i, v);
        assert(t.drop_last() =~= s.drop_last().update(i, (s[i].0, v)));
        assert(pairs_map(t) =~= pairs_map(s).insert(s[i].0, v));
    }
}

/// Resolved IP texts, each with the hostname that most recently produced it.
pub struct ResolvedAddresses {
    entries: Vec<(String, String)>,
}

impl ResolvedAddresses {
    pub closed spec fn pairs(&self) -> Seq<(Seq<char>, Seq<char>)> {
        self.entries@.map_values(|e: (String, String)| (e.0@, e.1@))
    }

    /// Each IP text stands in at most one entry.
    pub closed spec fn wf(&self) -> bool {
        keys_unique(self.pairs())
    }

    /// An empty table.
    pub fn new() -> (r: ResolvedAddresses)
        ensures
            r.wf(),
            r@ == Map::<Seq<char>, Seq<char>>::empty(),
    {
        let r = ResolvedAddresses { entries: Vec::new() };
        assert(r.pairs() =~= Seq::<(Seq<char>, Seq<char>)>::empty());
        r
    }
}

impl View for ResolvedAddresses {
    type V = Map<Seq<char>, Seq<char>>;

    closed spec fn view(&self) -> Map<Seq<char>, Seq<char>> {
        pairs_map(self.pairs())
    }
}

/// Records that `node` resolved to `ip`, replacing what was known of `ip`.
pub fn add(t: &mut ResolvedAddresses, node: &str, ip: &str)
    requires
        old(t).wf(),
    ensures
        final(t).wf(),
        final(t)@ == old(t)@.insert(ip@, node@),
{
    let key = ip.to_owned();
    let value = node.to_owned();
    let mut i: usize = 0;
    while i < t.entries.len()
        invariant
            t == old(t),
            t.wf(),
            key@ == ip@,
            value@ == node@,
            0 <= i <= t.entries@.len(),
            forall|j: int| 0 <= j < i ==> t.pairs()[j].0 != ip@,
        decreases t.entries@.len() - i,
    {
        assert(t.pairs()[i as int] == (t.entries@[i as int].0@, t.entries@[i as int].1@));
        if t.entries[i].0 == key {
            proof {
                lemma_update(t.pairs(), i as int, node@);
            }
            let ghost before = t.pairs();
            t.entries.set(i, (key, value));
            assert(t.pairs() =~= before.update(i as int, (before[i as int].0, node@)));
            return;
        }
        i = i + 1;
    }
    let ghost before = t.pairs();
    t.entries.push((key, value));
    assert(t.pairs().drop_last() =~= before);
    assert(t.pairs() =~= before.push((ip@, node@)));
    proof {
        lemma_absent(before, ip@);
    }
}

/// The hostname that `ip` was resolved from, or `n/a` where it never was.
pub fn get_node_by_ip(t: &ResolvedAddresses, ip: &str) -> (r: String)
    requires
        t.wf(),
    ensures
        r@ == lookup(t@, ip@),
{
    let key = ip.to_owned();
    let mut i: usize = 0;
    while i < t.entries.len()
        invariant
            t.wf(),
            key@ == ip@,
            0 <= i <= t.entries@.len(),
            forall|j: int| 0 <= j < i ==> t.pairs()[j].0 != ip@,
        decreases t.entries@.len() - i,
    {
        assert(t.pairs()[i as int] == (t.entries@[i as int].0@, t.entries@[i as int].1@));
        if t.entries[i].0 == key {
            proof {
                lemma_present(t.pairs(), i as int);
            }
            return t.entries[i].1.clone();
        }
        i = i + 1;
    }
    proof {
        lemma_absent(t.pairs(), ip@);
    }
    let r = "n/a".to_owned();
    proof {
        reveal_strlit("n/a");
    }
    r
}

} // verus!
