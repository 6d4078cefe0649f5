//! The decisions of bridge discovery: what the listener does after each poll
//! of the socket, and how the replies that it gathered become the set of
//! bridges found.
use vstd::prelude::*;

use crate::wifi::bridge_set::{has_ip, insert_sorted, lemma_insert_has_ip, lemma_insert_sorted, sorted_by_ip, BridgeSet};
use crate::wifi::reply::{parse_bridge_response, reply_spec, ReplyError};

verus! {

/// What one non-blocking receive on the discovery socket gave.
#[derive(Debug, Clone, Copy, PartialEq, Eq, Structural)]
pub enum PollOutcome {
    /// A datagram arrived (and has been handed on).
    Received,
    /// Nothing was ready.
    Empty,
    /// The receive failed for another reason.
    Failed,
}

/// What the listener does next.
#[derive(Debug, Clone, Copy, PartialEq, Eq, Structural)]
pub enum ListenerAction {
    /// Wait a moment, then poll again.
    Continue,
    /// Signal the end of the replies and stop.
    Finish,
    /// Stop and report the receive error.
    Abort,
}

/// The listener's decision after a poll: a failed receive ends discovery with
/// its error; otherwise polling goes on until the deadline has passed.
pub fn listener_step(outcome: PollOutcome, deadline_passed: bool) -> (r: ListenerAction)
    ensures
        outcome == PollOutcome::Failed ==> r == ListenerAction::Abort,
        outcome != PollOutcome::Failed ==> r == (if deadline_passed {
            ListenerAction::Finish
        } else {
            ListenerAction::Continue
        }),
{
    match outcome {
        PollOutcome::Failed => ListenerAction::Abort,
        _ => if deadline_passed {
            ListenerAction::Finish
        } else {
            ListenerAction::Continue
        },
    }
}

/// The text that lossy UTF-8 decoding makes of some bytes.
pub uninterp spec fn lossy_text(bytes: Seq<u8>) -> Seq<char>;

/// Relies on `String::from_utf8_lossy`: its result depends on the bytes alone.
#[verifier::external_body]
fn decode_lossy(bytes: &[u8]) -> (r: String)
    ensures
        r@ == lossy_text(bytes@),
{
    String::from_utf8_lossy(bytes).into_owned()
}

/// The texts of some strings.
pub open spec fn texts(v: Seq<String>) -> Seq<Seq<char>> {
    v.map_values(|s: String| s@)
}

/// The texts that lossy decoding makes of some datagrams.
pub open spec fn decoded(v: Seq<Vec<u8>>) -> Seq<Seq<char>> {
    v.map_values(|d: Vec<u8>| lossy_text(d@))
}

/// Replies taken in order into `acc`: the first reply that does not parse ends
/// it with its error; each other adds its bridge unless its address is there.
pub open spec fn collect_from(acc: Seq<(u32, Seq<char>)>, replies: Seq<Seq<char>>) -> Result<
    Seq<(u32, Seq<char>)>,
    ReplyError,
>
    decreases replies.len(),
{
    if replies.len() == 0 {
        Ok(acc)
    } else {
        match reply_spec(replies[0]) {
            Err(e) => Err(e),
            Ok(b) => collect_from(insert_sorted(acc, b), replies.drop_first()),
        }
    }
}

/// The bridges that a sequence of replies names, or the error of the first
/// reply that does not parse.
pub open spec fn collect(replies: Seq<Seq<char>>) -> Result<Seq<(u32, Seq<char>)>, ReplyError> {
    collect_from(Seq::empty(), replies)
}

/// Reads the replies in the order in which they arrived and gathers the
/// bridges that they name, ordered by network address; a reply that does not
/// parse fails the whole gathering.
pub fn collect_replies(replies: &Vec<String>) -> (r: Result<BridgeSet, ReplyError>)
    ensures
        match r {
            Ok(set) => collect(texts(replies@)) == Ok::<Seq<(u32, Seq<char>)>, ReplyError>(set@)
                && set.wf(),
            Err(e) => collect(texts(replies@)) == Err::<Seq<(u32, Seq<char>)>, ReplyError>(e),
        },
{
    let ghost rs = texts(replies@);
    let mut set = BridgeSet::new();
    assert(rs.subrange(0, rs.len() as int) =~= rs);
    let mut i: usize = 0;
    while i < replies.len()
        invariant
            rs == texts(replies@),
            i <= replies@.len(),
            set.wf(),
            collect(rs) == collect_from(set@, rs.subrange(i as int, rs.len() as int)),
        decreases replies@.len() - i,
    {
        let ghost rest = rs.subrange(i as int, rs.len() as int);
        assert(rest[0] == replies@[i as int]@);
        assert(rest.drop_first() =~= rs.subrange(i + 1, rs.len() as int));
        match parse_bridge_response(replies[i].as_str()) {
            Err(e) => {
                return Err(e);
            },
            Ok(bridge) => {
                set.insert(bridge);
            },
        }
        i = i + 1;
    }
    assert(rs.subrange(i as int, rs.len() as int) =~= Seq::<Seq<char>>::empty());
    Ok(set)
}

/// Gathers the bridges that received datagrams name, each datagram read as
/// UTF-8 with malformed bytes replaced.
pub fn collect_datagrams(datagrams: &Vec<Vec<u8>>) -> (r: Result<BridgeSet, ReplyError>)
    ensures
        match r {
            Ok(set) => collect(decoded(datagrams@)) == Ok::<Seq<(u32, Seq<char>)>, ReplyError>(
                set@,
            ) && set.wf(),
            Err(e) => collect(decoded(datagrams@)) == Err::<Seq<(u32, Seq<char>)>, ReplyError>(
                e,
            ),
        },
{
    let mut replies: Vec<String> = Vec::new();
    let mut i: usize = 0;
    while i < datagrams.len()
        invariant
            i <= datagrams@.len(),
            replies@.len() == i,
            texts(replies@) =~= decoded(datagrams@).subrange(0, i as int),
        decreases datagrams@.len() - i,
    {
        let text = decode_lossy(datagrams[i].as_slice());
        let ghost before = replies@;
        replies.push(text);
        proof {
            assert(replies@ == before.push(text));
            assert(text@ == lossy_text(datagrams@[i as int]@));
            assert forall|j: int| 0 <= j < i implies #[trigger] texts(replies@)[j] == texts(
                before,
            )[j] by {
                assert(replies@[j] == before[j]);
            }
            assert(texts(replies@) =~= decoded(datagrams@).subrange(0, i + 1));
        }
        i = i + 1;
    }
    assert(texts(replies@) =~= decoded(datagrams@));
    collect_replies(&replies)
}

proof fn lemma_collect_from(acc: Seq<(u32, Seq<char>)>, replies: Seq<Seq<char>>)
    requires
        sorted_by_ip(acc),
    ensures
        collect_from(acc, replies) is Err <==> exists|i: int|
            0 <= i < replies.len() && #[trigger] reply_spec(replies[i]) is Err,
        collect_from(acc, replies) is Ok ==> {
            let s = collect_from(acc, replies)->Ok_0;
            &&& sorted_by_ip(s)
            &&& s.len() <= acc.len() + replies.len()
            &&& forall|ip: u32|
                has_ip(s, ip) <==> (has_ip(acc, ip) || exists|i: int|
                    0 <= i < replies.len() && #[trigger] reply_spec(replies[i]) == Ok::<
                        (u32, Seq<char>),
                        ReplyError,
                    >((ip, reply_spec(replies[i])->Ok_0.1)))
        },
    decreases replies.len(),
{
    if replies.len() > 0 {
        let rest = replies.drop_first();
        match reply_spec(replies[0]) {
            Err(e) => {},
            Ok(b) => {
                let next = insert_sorted(acc, b);
                lemma_insert_sorted(acc, b);
                lemma_collect_from(next, rest);
                assert(forall|i: int| 0 <= i < rest.len() ==> #[trigger] rest[i] == replies[i + 1]);
                if exists|i: int| 0 <= i < replies.len() && #[trigger] reply_spec(replies[i]) is Err {
                    let i = choose|i: int| 0 <= i < replies.len() && #[trigger] reply_spec(replies[i]) is Err;
                    assert(reply_spec(rest[i - 1]) is Err);
                }
                if collect_from(next, rest) is Ok {
                    let s = collect_from(next, rest)->Ok_0;
                    assert forall|ip: u32|
                        has_ip(s, ip) <==> (has_ip(acc, ip) || exists|i: int|
                            0 <= i < replies.len() && #[trigger] reply_spec(replies[i]) == Ok::<
                                (u32, Seq<char>),
                                ReplyError,
                            >((ip, reply_spec(replies[i])->Ok_0.1))) by {
                        lemma_insert_has_ip(acc, b, ip);
                        if exists|i: int|
                            0 <= i < replies.len() && #[trigger] reply_spec(replies[i]) == Ok::<
                                (u32, Seq<char>),
                                ReplyError,
                            >((ip, reply_spec(replies[i])->Ok_0.1)) {
                            let i = choose|i: int|
                                0 <= i < replies.len() && #[trigger] reply_spec(replies[i]) == Ok::<
                                    (u32, Seq<char>),
                                    ReplyError,
                                >((ip, reply_spec(replies[i])->Ok_0.1));
                            if i > 0 {
                                assert(reply_spec(rest[i - 1]) == Ok::<(u32, Seq<char>), ReplyError>(
                                    (ip, reply_spec(rest[i - 1])->Ok_0.1),
                                ));
                            }
                        }
                        if ip == b.0 {
                            assert(reply_spec(replies[0]) == Ok::<(u32, Seq<char>), ReplyError>(
                                (ip, reply_spec(replies[0])->Ok_0.1),
                            ));
                        }
                    }
                }
            },
        }
    }
}

/// Discovery is strict: it fails exactly when some reply does not parse.
/// Otherwise it finds each network address that a reply names, once, in
/// increasing order, and so no more bridges than there were replies.
pub proof fn lemma_collect(replies: Seq<Seq<char>>)
    ensures
        collect(replies) is Err <==> exists|i: int|
            0 <= i < replies.len() && #[trigger] reply_spec(replies[i]) is Err,
        collect(replies) is Ok ==> {
            let s = collect(replies)->Ok_0;
            &&& sorted_by_ip(s)
            &&& s.len() <= replies.len()
            &&& forall|ip: u32|
                has_ip(s, ip) <==> exists|i: int|
                    0 <= i < replies.len() && #[trigger] reply_spec(replies[i]) == Ok::<
                        (u32, Seq<char>),
                        ReplyError,
                    >((ip, reply_spec(replies[i])->Ok_0.1))
        },
{
    lemma_collect_from(Seq::empty(), replies);
}

/// Two replies from one network address give one bridge, whatever
/// identifier tokens they carry: the first reply's.
pub proof fn lemma_same_ip_collapses(first: Seq<char>, second: Seq<char>)
    requires
        reply_spec(first) is Ok,
        reply_spec(second) is Ok,
        reply_spec(first)->Ok_0.0 == reply_spec(second)->Ok_0.0,
    ensures
        collect(seq![first, second]) == Ok::<Seq<(u32, Seq<char>)>, ReplyError>(
            seq![reply_spec(first)->Ok_0],
        ),
{
    let rs = seq![first, second];
    let a = reply_spec(first)->Ok_0;
    let b = reply_spec(second)->Ok_0;
    assert(rs.drop_first() =~= seq![second]);
    assert(seq![second].drop_first() =~= Seq::<Seq<char>>::empty());
    assert(insert_sorted(Seq::empty(), a) =~= seq![a]);
    assert(insert_sorted(seq![a], b) == seq![a]);
    assert(rs[0] == first && seq![second][0] == second);
    assert(collect_from(seq![a], Seq::<Seq<char>>::empty()) == Ok::<
        Seq<(u32, Seq<char>)>,
        ReplyError,
    >(seq![a]));
    assert(collect_from(seq![a], seq![second]) == collect_from(seq![a], Seq::<Seq<char>>::empty()));
    assert(collect_from(Seq::empty(), rs) == collect_from(seq![a], seq![second]));
}

} // verus!
