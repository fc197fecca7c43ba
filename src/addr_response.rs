//! The candidate addresses of a name resolution, as a single-pass sequence.
use vstd::prelude::*;
use crate::ip_addr::{UnifiedIpAddr, parse_sockaddr};

verus! {

/// The bytes of a node's address structure; `None` where the node has none.
pub open spec fn node_view(n: Option<Vec<u8>>) -> Option<Seq<u8>> {
    match n {
        None => None,
        Some(v) => Some(v@),
    }
}

/// The addresses a full pass over `s` yields: one per node, up to the first
/// node with no address structure or with one that does not parse.
pub open spec fn yielded(s: Seq<Option<Seq<u8>>>) -> Seq<UnifiedIpAddr>
    decreases s.len(),
{
    if s.len() == 0 {
        seq![]
    } else {
        match s[0] {
            None => seq![],
            Some(b) => match parse_sockaddr(b) {
                None => seq![],
                Some(a) => seq![a] + yielded(s.drop_first()),
            },
        }
    }
}

/// The nodes of a resolution result in list order, and how far a pass has gone.
pub struct AddrResponse {
    nodes: Vec<Option<Vec<u8>>>,
    pos: usize,
}

impl AddrResponse {
    /// The nodes not yet passed.
    pub closed spec fn remaining(&self) -> Seq<Option<Seq<u8>>> {
        self.nodes@.subrange(self.pos as int, self.nodes@.len() as int).map_values(
            |n: Option<Vec<u8>>| node_view(n),
        )
    }

    pub closed spec fn wf(&self) -> bool {
        self.pos <= self.nodes@.len()
    }

    /// A sequence over `nodes`; `None` stands for a null result list.
    pub fn from_addrinfo(nodes: Option<Vec<Option<Vec<u8>>>>) -> (r: Option<AddrResponse>)
        ensures
            match nodes {
                None => r is None,
                Some(v) => r matches Some(a) && a.wf() && a.remaining() == v@.map_values(
                    |n: Option<Vec<u8>>| node_view(n),
                ),
            },
    {
        match nodes {
            None => None,
            Some(v) => {
                let a = AddrResponse { nodes: v, pos: 0 };
                assert(a.nodes@.subrange(0, a.nodes@.len() as int) =~= a.nodes@);
                Some(a)
            },
        }
    }

    /// The address of the next node. Ends, with nothing passed, at the end of
    /// the list or at a node with no address structure; a node whose address
    /// does not parse is passed and also ends the sequence.
    pub fn next(&mut self) -> (r: Option<UnifiedIpAddr>)
        requires
            old(self).wf(),
        ensures
            final(self).wf(),
            old(self).remaining().len() == 0 ==> r is None && final(self).remaining() == old(
                self,
            ).remaining(),
            old(self).remaining().len() > 0 ==> match old(self).remaining()[0] {
                None => r is None && final(self).remaining() == old(self).remaining(),
                Some(b) => r == parse_sockaddr(b) && final(self).remaining() == old(
                    self,
                ).remaining().drop_first(),
            },
    {
        if self.pos >= self.nodes.len() {
            return None;
        }
        let ghost before = self.remaining();
        assert(before[0] == node_view(self.nodes@[self.pos as int]));
        match &self.nodes[self.pos] {
            None => None,
            Some(b) => {
                let r = UnifiedIpAddr::from_sockaddr(b.as_slice());
                self.pos = self.pos + 1;
                assert(self.remaining() =~= before.drop_first());
                r
            },
        }
    }

    /// All the addresses that a full pass yields.
    pub fn collect_addresses(&mut self) -> (r: Vec<UnifiedIpAddr>)
        requires
            old(self).wf(),
        ensures
            r@ == yielded(old(self).remaining()),
    {
        let mut out: Vec<UnifiedIpAddr> = Vec::new();
        loop
            invariant
                self.wf(),
                out@ + yielded(self.remaining()) == yielded(old(self).remaining()),
            decreases self.remaining().len(),
        {
            let ghost before = self.remaining();
            match self.next() {
                None => {
                    assert(yielded(before) =~= Seq::<UnifiedIpAddr>::empty());
                    assert(out@ + yielded(before) =~= out@);
                    return out;
                },
                Some(a) => {
                    out.push(a);
                    assert(out@ + yielded(self.remaining()) =~= out@.drop_last() + yielded(before));
                },
            }
        }
    }
}

} // verus!
