//! An ordered collection of bridge addresses that keeps one entry for each
//! network address.
use vstd::prelude::*;

use crate::wifi::address::{BridgeAddress, Ipv4Address};

verus! {

/// Entries strictly increasing by network address.
pub open spec fn sorted_by_ip(s: Seq<(u32, Seq<char>)>) -> bool {
    forall|i: int, j: int| 0 <= i < j < s.len() ==> s[i].0 < s[j].0
}

/// Whether some entry has network address `ip`.
pub open spec fn has_ip(s: Seq<(u32, Seq<char>)>, ip: u32) -> bool {
    exists|j: int| 0 <= j < s.len() && #[trigger] s[j].0 == ip
}

/// `s` with `b` put in its place by network address; `s` itself where an entry
/// with that address is already there (the first entry of an address stays).
pub open spec fn insert_sorted(s: Seq<(u32, Seq<char>)>, b: (u32, Seq<char>)) -> Seq<(u32, Seq<char>)>
    decreases s.len(),
{
    if s.len() == 0 {
        seq![b]
    } else if b.0 < s[0].0 {
        seq![b] + s
    } else if b.0 == s[0].0 {
        s
    } else {
        seq![s[0]] + insert_sorted(s.drop_first(), b)
    }
}

/// Inserting keeps the order, adds at most one entry, and changes nothing
/// where `b`'s address is already present.
pub proof fn lemma_insert_sorted(s: Seq<(u32, Seq<char>)>, b: (u32, Seq<char>))
    requires
        sorted_by_ip(s),
    ensures
        sorted_by_ip(insert_sorted(s, b)),
        insert_sorted(s, b).len() > 0,
        insert_sorted(s, b)[0] == b || (s.len() > 0 && insert_sorted(s, b)[0] == s[0]),
        s.len() <= insert_sorted(s, b).len() <= s.len() + 1,
        has_ip(s, b.0) ==> insert_sorted(s, b) == s,
    decreases s.len(),
{
    let r = insert_sorted(s, b);
    if s.len() == 0 {
    } else if b.0 < s[0].0 {
        assert(r =~= seq![b] + s);
    } else if b.0 == s[0].0 {
    } else {
        let t = s.drop_first();
        let rt = insert_sorted(t, b);
        lemma_insert_sorted(t, b);
        assert(r =~= seq![s[0]] + rt);
        assert forall|i: int, j: int| 0 <= i < j < r.len() implies r[i].0 < r[j].0 by {
            if i == 0 {
                assert(rt[0].0 <= rt[j - 1].0);
                if rt[0] != b {
                    assert(rt[0] == t[0]);
                }
            }
        }
        if has_ip(s, b.0) {
            let j = choose|j: int| 0 <= j < s.len() && #[trigger] s[j].0 == b.0;
            assert(j > 0);
            assert(t[j - 1].0 == b.0);
            assert(rt == t);
            assert(r =~= s);
        }
    }
}

/// After inserting `b`, the addresses present are those present before and
/// `b`'s.
pub proof fn lemma_insert_has_ip(s: Seq<(u32, Seq<char>)>, b: (u32, Seq<char>), ip: u32)
    ensures
        has_ip(insert_sorted(s, b), ip) <==> (has_ip(s, ip) || ip == b.0),
    decreases s.len(),
{
    let r = insert_sorted(s, b);
    if s.len() == 0 {
        if has_ip(r, ip) {
            let j = choose|j: int| 0 <= j < r.len() && #[trigger] r[j].0 == ip;
            assert(j == 0);
        }
        if ip == b.0 {
            assert(r[0].0 == ip);
        }
    } else if b.0 < s[0].0 {
        assert(r =~= seq![b] + s);
        if has_ip(r, ip) {
            let j = choose|j: int| 0 <= j < r.len() && #[trigger] r[j].0 == ip;
            if j > 0 {
                assert(s[j - 1].0 == ip);
            }
        }
        if has_ip(s, ip) {
            let j = choose|j: int| 0 <= j < s.len() && #[trigger] s[j].0 == ip;
            assert(r[j + 1].0 == ip);
        }
        if ip == b.0 {
            assert(r[0].0 == ip);
        }
    } else if b.0 == s[0].0 {
        if ip == b.0 {
            assert(s[0].0 == ip);
        }
    } else {
        let t = s.drop_first();
        let rt = insert_sorted(t, b);
        lemma_insert_has_ip(t, b, ip);
        assert(r =~= seq![s[0]] + rt);
        if has_ip(r, ip) {
            let j = choose|j: int| 0 <= j < r.len() && #[trigger] r[j].0 == ip;
            if j > 0 {
                assert(rt[j - 1].0 == ip);
                if has_ip(t, ip) {
                    let k = choose|k: int| 0 <= k < t.len() && #[trigger] t[k].0 == ip;
                    assert(s[k + 1].0 == ip);
                }
            } else {
                assert(s[0].0 == ip);
            }
        }
        if has_ip(s, ip) {
            let j = choose|j: int| 0 <= j < s.len() && #[trigger] s[j].0 == ip;
            if j > 0 {
                assert(t[j - 1].0 == ip);
                let k = choose|k: int| 0 <= k < rt.len() && #[trigger] rt[k].0 == ip;
                assert(r[k + 1].0 == ip);
            } else {
                assert(r[0].0 == ip);
            }
        }
        if ip == b.0 {
            let k = choose|k: int| 0 <= k < rt.len() && #[trigger] rt[k].0 == ip;
            assert(r[k + 1].0 == ip);
        }
    }
}

/// Where the entries before `i` all have smaller addresses and the entry at
/// `i`, if any, does not, inserting either finds `b`'s address at `i` or puts
/// `b` there.
proof fn lemma_insert_at(s: Seq<(u32, Seq<char>)>, b: (u32, Seq<char>), i: int)
    requires
        sorted_by_ip(s),
        0 <= i <= s.len(),
        forall|j: int| 0 <= j < i ==> #[trigger] s[j].0 < b.0,
        i < s.len() ==> s[i].0 >= b.0,
    ensures
        insert_sorted(s, b) == (if i < s.len() && s[i].0 == b.0 {
            s
        } else {
            s.insert(i, b)
        }),
    decreases i,
{
    if i == 0 {
        if s.len() == 0 {
            assert(s.insert(0, b) =~= seq![b]);
        } else if b.0 < s[0].0 {
            assert(s.insert(0, b) =~= seq![b] + s);
        }
    } else {
        let t = s.drop_first();
        assert(s[0].0 < b.0);
        assert forall|j: int| 0 <= j < i - 1 implies #[trigger] t[j].0 < b.0 by {
            assert(s[j + 1].0 < b.0);
        }
        lemma_insert_at(t, b, i - 1);
        if !(i < s.len() && s[i].0 == b.0) {
            assert(seq![s[0]] + t.insert(i - 1, b) =~= s.insert(i, b));
        } else {
            assert(seq![s[0]] + t =~= s);
        }
    }
}

/// Discovered bridges, one for each network address, in increasing order of
/// address.
#[derive(Debug)]
pub struct BridgeSet {
    entries: Vec<BridgeAddress>,
}

impl View for BridgeSet {
    type V = Seq<(u32, Seq<char>)>;

    closed spec fn view(&self) -> Seq<(u32, Seq<char>)> {
        self.entries@.map_values(|b: BridgeAddress| b@)
    }
}

impl BridgeSet {
    /// The entries are strictly increasing by network address.
    pub open spec fn wf(&self) -> bool {
        sorted_by_ip(self@)
    }

    pub fn new() -> (r: BridgeSet)
        ensures
            r@ == Seq::<(u32, Seq<char>)>::empty(),
            r.wf(),
    {
        let r = BridgeSet { entries: Vec::new() };
        assert(r@ =~= Seq::<(u32, Seq<char>)>::empty());
        r
    }

    pub fn len(&self) -> (r: usize)
        ensures
            r == self@.len(),
    {
        self.entries.len()
    }

    pub fn is_empty(&self) -> (r: bool)
        ensures
            r == (self@.len() == 0),
    {
        self.entries.len() == 0
    }

    pub fn get(&self, i: usize) -> (r: &BridgeAddress)
        requires
            i < self@.len(),
        ensures
            r@ == self@[i as int],
    {
        &self.entries[i]
    }

    /// Whether a bridge with network address `ip` is present.
    pub fn contains(&self, ip: Ipv4Address) -> (r: bool)
        ensures
            r == has_ip(self@, ip.0),
    {
        let mut i: usize = 0;
        while i < self.entries.len()
            invariant
                i <= self@.len(),
                forall|j: int| 0 <= j < i ==> #[trigger] self@[j].0 != ip.0,
            decreases self@.len() - i,
        {
            if self.entries[i].ip.0 == ip.0 {
                assert(self@[i as int].0 == ip.0);
                return true;
            }
            i = i + 1;
        }
        false
    }

    /// Adds a bridge unless one with the same network address is present
    /// (then the set is left as it is); tells whether it was added.
    pub fn insert(&mut self, bridge: BridgeAddress) -> (added: bool)
        requires
            old(self).wf(),
        ensures
            final(self)@ == insert_sorted(old(self)@, bridge@),
            final(self).wf(),
            added == !has_ip(old(self)@, bridge.ip.0),
            added ==> final(self)@.len() == old(self)@.len() + 1,
            !added ==> final(self)@ == old(self)@,
    {
        let ghost s = self@;
        let key = bridge.ip.0;
        let mut i: usize = 0;
        while i < self.entries.len() && self.entries[i].ip.0 < key
            invariant
                s == self@,
                key == bridge@.0,
                i <= self@.len(),
                forall|j: int| 0 <= j < i ==> #[trigger] s[j].0 < key,
            decreases self@.len() - i,
        {
            i = i + 1;
        }
        proof {
            lemma_insert_at(s, bridge@, i as int);
            lemma_insert_sorted(s, bridge@);
        }
        if i < self.entries.len() && self.entries[i].ip.0 == key {
            assert(s[i as int].0 == key);
            return false;
        }
        proof {
            if has_ip(s, key) {
                let j = choose|j: int| 0 <= j < s.len() && #[trigger] s[j].0 == key;
                if j >= i {
                    assert(s[i as int].0 <= s[j].0);
                }
            }
        }
        self.entries.insert(i, bridge);
        proof {
            assert(self@ =~= s.insert(i as int, bridge@));
        }
        true
    }

    /// The entries, in increasing order of network address.
    pub fn into_vec(self) -> (r: Vec<BridgeAddress>)
        ensures
            r@.map_values(|b: BridgeAddress| b@) == self@,
    {
        self.entries
    }
}

} // verus!
