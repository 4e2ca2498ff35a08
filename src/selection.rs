//! Choice of the most relevant host among several.
use vstd::prelude::*;
use crate::error::Error;
use mpd_client::client::CommandError;

verus! {

/// The play state that a host reports.
#[derive(Clone, Copy, Debug, PartialEq, Eq, Structural)]
pub enum PlayState {
    Stopped,
    Playing,
    Paused,
}

/// Preference among play states: lower is preferred.
pub open spec fn rank(p: PlayState) -> int {
    match p {
        PlayState::Playing => 0,
        PlayState::Paused => 1,
        PlayState::Stopped => 2,
    }
}

/// `i` is the first position holding `p`.
pub open spec fn is_first_of(states: Seq<PlayState>, p: PlayState, i: int) -> bool {
    0 <= i < states.len() && states[i] == p && forall|j: int| 0 <= j < i ==> states[j] != p
}

/// `i` holds the most preferred state present, and is the first position
/// that holds it.
pub open spec fn is_best(states: Seq<PlayState>, i: int) -> bool {
    &&& 0 <= i < states.len()
    &&& forall|j: int| 0 <= j < states.len() ==> rank(states[j]) >= rank(states[i])
    &&& forall|j: int| 0 <= j < i ==> rank(states[j]) > rank(states[i])
}

/// The position chosen among `states`: the first playing one, else the first
/// paused one, else the first stopped one; none when `states` is empty.
pub open spec fn best_position(states: Seq<PlayState>) -> Option<int> {
    if exists|i: int| is_best(states, i) {
        Some(choose|i: int| is_best(states, i))
    } else {
        None
    }
}

/// The positions of `connected` that hold `true`, in order.
pub open spec fn connected_indices(connected: Seq<bool>) -> Seq<usize>
    decreases connected.len(),
{
    if connected.len() == 0 {
        Seq::empty()
    } else {
        let before = connected_indices(connected.drop_last());
        if connected.last() {
            before.push((connected.len() - 1) as usize)
        } else {
            before
        }
    }
}

/// All the play states when every query succeeded, else the first error
/// in query order.
pub open spec fn collect_replies(replies: Seq<Result<PlayState, CommandError>>) -> Result<
    Seq<PlayState>,
    CommandError,
>
    decreases replies.len(),
{
    if replies.len() == 0 {
        Ok(Seq::empty())
    } else {
        match replies[0] {
            Err(e) => Err(e),
            Ok(p) => match collect_replies(replies.skip(1)) {
                Ok(rest) => Ok(seq![p] + rest),
                Err(e) => Err(e),
            },
        }
    }
}

/// The host chosen among `hosts`, whose play-state queries gave `replies`
/// in the same order: the first failed query's error, or the host at the
/// best position, or none.
pub open spec fn selection(hosts: Seq<usize>, replies: Seq<Result<PlayState, CommandError>>) -> Result<
    Option<usize>,
    CommandError,
> {
    match collect_replies(replies) {
        Err(e) => Err(e),
        Ok(states) => Ok(
            match best_position(states) {
                Some(i) => Some(hosts[i]),
                None => None,
            },
        ),
    }
}

/// What a request to the multi-host client gets from a selection.
pub open spec fn outcome(selected: Result<Option<usize>, CommandError>) -> Result<usize, Error> {
    match selected {
        Ok(Some(i)) => Ok(i),
        Ok(None) => Err(Error::NoHostConnectedError),
        Err(e) => Err(Error::CommandError(e)),
    }
}

/// Two positions that are both best are the same one.
proof fn lemma_best_unique(states: Seq<PlayState>, i: int, k: int)
    requires
        is_best(states, i),
        is_best(states, k),
    ensures
        i == k,
{
    if i < k {
        assert(rank(states[i]) > rank(states[k]));
    } else if k < i {
        assert(rank(states[k]) > rank(states[i]));
    }
}

/// The first position of `states` that holds `target`.
pub fn position_of(states: &Vec<PlayState>, target: PlayState) -> (r: Option<usize>)
    ensures
        match r {
            Some(i) => is_first_of(states@, target, i as int),
            None => forall|j: int| 0 <= j < states@.len() ==> states@[j] != target,
        },
{
    let mut i: usize = 0;
    while i < states.len()
        invariant
            i <= states@.len(),
            forall|j: int| 0 <= j < i ==> states@[j] != target,
        decreases states@.len() - i,
    {
        if states[i] == target {
            return Some(i);
        }
        i = i + 1;
    }
    None
}

/// The position of the most relevant state: the first playing one, else the
/// first paused one, else the first stopped one.
pub fn select_best(states: &Vec<PlayState>) -> (r: Option<usize>)
    ensures
        match r {
            Some(i) => is_best(states@, i as int) && best_position(states@) == Some(i as int),
            None => best_position(states@) is None,
        },
        r is None <==> states@.len() == 0,
{
    let found = match position_of(states, PlayState::Playing) {
        Some(i) => Some(i),
        None => match position_of(states, PlayState::Paused) {
            Some(i) => Some(i),
            None => position_of(states, PlayState::Stopped),
        },
    };
    proof {
        match found {
            Some(i) => {
                assert(is_best(states@, i as int));
                assert forall|k: int| is_best(states@, k) implies k == i as int by {
                    lemma_best_unique(states@, i as int, k);
                }
            },
            None => {
                if states@.len() > 0 {
                    assert(states@[0] != PlayState::Playing);
                }
                assert(states@.len() == 0);
            },
        }
    }
    found
}

/// The positions of the connected hosts, in registry order.
pub fn connected_hosts(connected: &Vec<bool>) -> (r: Vec<usize>)
    ensures
        r@ == connected_indices(connected@),
{
    let mut r: Vec<usize> = Vec::new();
    let mut i: usize = 0;
    while i < connected.len()
        invariant
            i <= connected@.len(),
            r@ == connected_indices(connected@.take(i as int)),
        decreases connected@.len() - i,
    {
        assert(connected@.take(i + 1).drop_last() =~= connected@.take(i as int));
        if connected[i] {
            r.push(i);
        }
        i = i + 1;
    }
    assert(connected@.take(i as int) =~= connected@);
    r
}

/// The host to use among `hosts`, given the replies of their play-state
/// queries in the same order. Any failed query fails the whole choice with
/// the first such error.
pub fn pick_current(hosts: &Vec<usize>, replies: Vec<Result<PlayState, CommandError>>) -> (r: Result<
    Option<usize>,
    CommandError,
>)
    requires
        hosts@.len() == replies@.len(),
    ensures
        r == selection(hosts@, replies@),
{
    let ghost all = replies@;
    let mut pending = replies;
    let mut states: Vec<PlayState> = Vec::new();
    while pending.len() > 0
        invariant
            collect_replies(all) == match collect_replies(pending@) {
                Ok(rest) => Ok(states@ + rest),
                Err(e) => Err(e),
            },
            states@.len() + pending@.len() == all.len(),
            all == replies@,
        decreases pending@.len(),
    {
        let ghost before = pending@;
        let reply = pending.remove(0);
        assert(before.skip(1) =~= pending@);
        match reply {
            Ok(p) => {
                let ghost old_states = states@;
                states.push(p);
                proof {
                    match collect_replies(pending@) {
                        Ok(rest) => {
                            assert(old_states + (seq![p] + rest) =~= states@ + rest);
                        },
                        Err(_) => {},
                    }
                }
            },
            Err(e) => {
                assert(collect_replies(before) == Err::<Seq<PlayState>, CommandError>(e));
                return Err(e);
            },
        }
    }
    assert(states@ + Seq::<PlayState>::empty() =~= states@);
    match select_best(&states) {
        Some(i) => Ok(Some(hosts[i])),
        None => Ok(None),
    }
}

/// Turns a selection into the result of a request: the chosen host, or no
/// host connected, or the failure of the selection.
pub fn resolve_selection(selected: Result<Option<usize>, CommandError>) -> (r: Result<usize, Error>)
    ensures
        r == outcome(selected),
{
    match selected {
        Ok(Some(i)) => Ok(i),
        Ok(None) => Err(Error::NoHostConnectedError),
        Err(e) => Err(Error::CommandError(e)),
    }
}

/// The positions listed as connected are positions of `connected` that hold
/// `true`; none are listed when none holds `true`.
pub proof fn lemma_connected_indices(connected: Seq<bool>)
    requires
        connected.len() <= usize::MAX,
    ensures
        forall|k: int|
            0 <= k < connected_indices(connected).len() ==> {
                let i = #[trigger] connected_indices(connected)[k] as int;
                0 <= i < connected.len() && connected[i]
            },
        (forall|i: int| 0 <= i < connected.len() ==> !connected[i]) ==> connected_indices(
            connected,
        ).len() == 0,
    decreases connected.len(),
{
    if connected.len() > 0 {
        let rest = connected.drop_last();
        lemma_connected_indices(rest);
        let all = connected_indices(connected);
        let before = connected_indices(rest);
        assert forall|k: int| 0 <= k < all.len() implies {
            let i = #[trigger] all[k] as int;
            0 <= i < connected.len() && connected[i]
        } by {
            if k < before.len() {
                assert(all[k] == before[k]);
                assert(rest[before[k] as int] == connected[before[k] as int]);
            }
        }
        if forall|i: int| 0 <= i < connected.len() ==> !connected[i] {
            assert forall|i: int| 0 <= i < rest.len() implies !rest[i] by {
                assert(rest[i] == connected[i]);
            }
        }
    }
}

/// With no host connected, a request to the multi-host client fails with
/// no host connected, whatever else is known.
pub proof fn lemma_no_connected_host(connected: Seq<bool>, replies: Seq<Result<PlayState, CommandError>>)
    requires
        connected.len() <= usize::MAX,
        forall|i: int| 0 <= i < connected.len() ==> !connected[i],
        replies.len() == connected_indices(connected).len(),
    ensures
        outcome(selection(connected_indices(connected), replies)) == Err::<usize, Error>(
            Error::NoHostConnectedError,
        ),
{
    lemma_connected_indices(connected);
    assert(collect_replies(replies) == Ok::<Seq<PlayState>, CommandError>(Seq::empty()));
    let states = Seq::<PlayState>::empty();
    assert(!(exists|i: int| is_best(states, i)));
}

/// A host that a request is sent to is a connected one.
pub proof fn lemma_chosen_host_is_connected(connected: Seq<bool>, replies: Seq<Result<PlayState, CommandError>>)
    requires
        connected.len() <= usize::MAX,
        replies.len() == connected_indices(connected).len(),
    ensures
        outcome(selection(connected_indices(connected), replies)) is Ok ==> {
            let h = outcome(selection(connected_indices(connected), replies))->Ok_0 as int;
            0 <= h < connected.len() && connected[h]
        },
{
    lemma_connected_indices(connected);
    lemma_collect_len(replies);
    match collect_replies(replies) {
        Ok(states) => {
            if exists|i: int| is_best(states, i) {
                let i = choose|i: int| is_best(states, i);
                assert(0 <= i < connected_indices(connected).len());
            }
        },
        Err(_) => {},
    }
}

/// When every query succeeded, there is one play state per query.
proof fn lemma_collect_len(replies: Seq<Result<PlayState, CommandError>>)
    ensures
        collect_replies(replies) is Ok ==> collect_replies(replies)->Ok_0.len() == replies.len(),
    decreases replies.len(),
{
    if replies.len() > 0 {
        lemma_collect_len(replies.skip(1));
    }
}


} // verus!
