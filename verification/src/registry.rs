//! Which input source has which port, and how long a lost one may come back.

use std::collections::HashMap;

use vstd::prelude::*;

use crate::clock::{Monotonic, MAX_DURATION_NS};
use crate::text;

verus! {

/// Who has a port: a player through a source, and until when the port is kept
/// for that player where the source is gone.
#[derive(Debug, Clone)]
pub struct PortOwner {
    pub player_id: String,
    pub source_id: String,
    pub reconnect_until: Option<u128>,
}

#[verifier::ext_equal]
pub struct OwnerModel {
    pub player_id: Seq<char>,
    pub source_id: Seq<char>,
    pub reconnect_until: Option<u128>,
}

impl View for PortOwner {
    type V = OwnerModel;

    open spec fn view(&self) -> OwnerModel {
        OwnerModel {
            player_id: self.player_id@,
            source_id: self.source_id@,
            reconnect_until: self.reconnect_until,
        }
    }
}

pub type PortsModel = Map<u32, OwnerModel>;

pub open spec fn ports_view(map: Map<u32, PortOwner>) -> PortsModel {
    map.map_values(|o: PortOwner| o@)
}

/// Whether a port is still somebody's at `now`.
pub open spec fn held_at(owner: OwnerModel, now: u128) -> bool {
    owner.reconnect_until is None || owner.reconnect_until->0 > now
}

/// The ports that are somebody's at `now`.
pub open spec fn still_held(ports: PortsModel, now: u128) -> PortsModel {
    ports.restrict(Set::new(|p: u32| ports.contains_key(p) && held_at(ports[p], now)))
}

/// The ports with each of a list given to a player's source.
pub open spec fn given(ports: PortsModel, list: Seq<u32>, owner: OwnerModel) -> PortsModel {
    Map::new(
        |p: u32| ports.contains_key(p) || list.contains(p),
        |p: u32|
            if list.contains(p) {
                owner
            } else {
                ports[p]
            },
    )
}

pub open spec fn active_owner(player_id: Seq<char>, source_id: Seq<char>) -> OwnerModel {
    OwnerModel { player_id, source_id, reconnect_until: None }
}

/// The ports once a source is gone: what it had is kept until `until`.
pub open spec fn released(ports: PortsModel, source_id: Seq<char>, until: u128) -> PortsModel {
    ports.map_values(
        |o: OwnerModel|
            if o.source_id == source_id {
                OwnerModel { reconnect_until: Some(until), ..o }
            } else {
                o
            },
    )
}

/// Whether a source has a port and is there.
pub open spec fn owns(ports: PortsModel, source_id: Seq<char>, port: u32) -> bool {
    &&& ports.contains_key(port)
    &&& ports[port].source_id == source_id
    &&& ports[port].reconnect_until is None
}

/// Whether a port is being kept for another player, who may still come back.
pub open spec fn kept_for_another(
    ports: PortsModel,
    port: u32,
    player_id: Seq<char>,
    source_id: Seq<char>,
) -> bool {
    &&& ports.contains_key(port)
    &&& ports[port].reconnect_until is Some
    &&& ports[port].player_id != player_id
    &&& ports[port].source_id != source_id
}

/// Whether `i` is the first place of a list whose port is being kept for another
/// player.
pub open spec fn first_kept(
    ports: PortsModel,
    list: Seq<u32>,
    player_id: Seq<char>,
    source_id: Seq<char>,
    i: int,
) -> bool {
    &&& 0 <= i < list.len()
    &&& kept_for_another(ports, list[i], player_id, source_id)
    &&& forall|j: int|
        0 <= j < i ==> !kept_for_another(ports, #[trigger] list[j], player_id, source_id)
}

/// What is said of a port that is another player's.
pub open spec fn of_another_player(port: u32) -> Seq<char> {
    "port "@ + text::decimal(port as nat) + " already assigned to another player"@
}

/// What reserving ports does and answers: all of them, or none and why.
pub open spec fn reserve_outcome(
    before: PortsModel,
    now: u128,
    list: Seq<u32>,
    player_id: Seq<char>,
    source_id: Seq<char>,
    after: PortsModel,
    answer: Result<(), String>,
) -> bool {
    let ports = still_held(before, now);
    &&& answer is Err <==> exists|i: int|
        0 <= i < list.len() && kept_for_another(ports, #[trigger] list[i], player_id, source_id)
    &&& match answer {
        Ok(()) => after == given(ports, list, active_owner(player_id, source_id)),
        Err(why) => {
            &&& after == ports
            &&& exists|i: int| #[trigger]
                first_kept(ports, list, player_id, source_id, i) && why@ == of_another_player(
                    list[i],
                )
        },
    }
}

/// Why a port cannot be leased to a player's source, if so: it is another
/// player's, or another source of the player is there.
pub open spec fn lease_conflict(
    ports: PortsModel,
    port: u32,
    player_id: Seq<char>,
    source_id: Seq<char>,
) -> Option<Seq<char>> {
    if !ports.contains_key(port) || ports[port].source_id == source_id {
        None
    } else if ports[port].player_id != player_id {
        Some(of_another_player(port))
    } else if ports[port].reconnect_until is None {
        Some("port "@ + text::decimal(port as nat) + " already active for this player"@)
    } else {
        None
    }
}

/// Whether `i` is the first place of a list whose port cannot be leased.
pub open spec fn first_conflict(
    ports: PortsModel,
    list: Seq<u32>,
    player_id: Seq<char>,
    source_id: Seq<char>,
    i: int,
) -> bool {
    &&& 0 <= i < list.len()
    &&& lease_conflict(ports, list[i], player_id, source_id) is Some
    &&& forall|j: int|
        0 <= j < i ==> lease_conflict(ports, #[trigger] list[j], player_id, source_id) is None
}

/// What leasing ports does and answers: all of them, or none and why.
pub open spec fn lease_outcome(
    before: PortsModel,
    now: u128,
    list: Seq<u32>,
    player_id: Seq<char>,
    source_id: Seq<char>,
    after: PortsModel,
    answer: Result<(), String>,
) -> bool {
    let ports = still_held(before, now);
    match answer {
        Ok(()) => {
            &&& forall|i: int|
                0 <= i < list.len() ==> lease_conflict(
                    ports,
                    #[trigger] list[i],
                    player_id,
                    source_id,
                ) is None
            &&& after == given(ports, list, active_owner(player_id, source_id))
        },
        Err(why) => {
            &&& after == ports
            &&& exists|i: int| #[trigger]
                first_conflict(ports, list, player_id, source_id, i) && Some(why@)
                    == lease_conflict(ports, list[i], player_id, source_id)
        },
    }
}

/// The owners of ports.
#[derive(Debug)]
pub struct InputSessionRegistry {
    pub per_port: HashMap<u32, PortOwner>,
    pub clock: Monotonic,
}

impl View for InputSessionRegistry {
    type V = PortsModel;

    open spec fn view(&self) -> PortsModel {
        ports_view(self.per_port@)
    }
}

impl Default for InputSessionRegistry {
    fn default() -> (registry: Self)
        ensures
            registry@ == Map::<u32, OwnerModel>::empty(),
    {
        broadcast use vstd::std_specs::hash::group_hash_axioms;

        let registry = InputSessionRegistry {
            per_port: HashMap::new(),
            clock: Monotonic::start(),
        };
        assert(registry@ =~= Map::<u32, OwnerModel>::empty());
        registry
    }
}

/// The ports of a map, in any order.
fn ports_of(map: &HashMap<u32, PortOwner>) -> (list: Vec<u32>)
    ensures
        forall|p: u32| #[trigger] list@.contains(p) <==> map@.contains_key(p),
{
    broadcast use vstd::std_specs::hash::group_hash_axioms;

    let mut list: Vec<u32> = Vec::new();
    for key in it: map.keys()
        invariant
            it.seq().unref().to_set() == map@.dom(),
            list@ == it.seq().unref().take(it.index()),
            it.index() == it.seq().len() ==> list@ =~= it.seq().unref(),
    {
        list.push(*key);
        assert(list@ =~= it.seq().unref().take(it.index() + 1));
    }
    proof {
        assert(list@.to_set() == map@.dom());
        assert forall|p: u32| #[trigger] list@.contains(p) <==> map@.contains_key(p) by {
            assert(list@.to_set().contains(p) <==> map@.dom().contains(p));
        }
    }
    list
}

impl InputSessionRegistry {
    /// Gives up the ports whose time to come back has passed by `now`.
    pub fn cleanup_expired_at(&mut self, now: u128)
        ensures
            final(self)@ == still_held(old(self)@, now),
            final(self).clock == old(self).clock,
    {
        broadcast use vstd::std_specs::hash::group_hash_axioms;

        let ghost before = self.per_port@;
        let list = ports_of(&self.per_port);
        let mut i: usize = 0;
        while i < list.len()
            invariant
                i <= list@.len(),
                self.clock == old(self).clock,
                forall|p: u32| #[trigger] list@.contains(p) <==> before.contains_key(p),
                forall|p: u32| #[trigger]
                    self.per_port@.contains_key(p) ==> before.contains_key(p) && before[p]
                        == self.per_port@[p],
                forall|p: u32|
                    before.contains_key(p) && held_at(before[p]@, now) ==> #[trigger]
                    self.per_port@.contains_key(p),
                forall|j: int|
                    0 <= j < i && self.per_port@.contains_key(#[trigger] list@[j]) ==> held_at(
                        before[list@[j]]@,
                        now,
                    ),
            decreases list@.len() - i,
        {
            let port: u32 = list[i];
            let gone: bool = match self.per_port.get(&port) {
                Some(owner) => match owner.reconnect_until {
                    Some(until) => until <= now,
                    None => false,
                },
                None => false,
            };
            if gone {
                self.per_port.remove(&port);
            }
            i += 1;
        }
        proof {
            let after = self.per_port@;
            assert forall|p: u32| after.contains_key(p) implies held_at(before[p]@, now) by {
                assert(list@.contains(p));
                let j = choose|j: int| 0 <= j < list@.len() && list@[j] == p;
                assert(after.contains_key(list@[j]));
            }
            assert(ports_view(after) =~= still_held(ports_view(before), now));
        }
    }

    /// Gives up the ports whose time to come back has passed.
    pub fn cleanup_expired(&mut self)
        ensures
            exists|now: u128|
                now <= MAX_DURATION_NS && final(self)@ == #[trigger] still_held(old(self)@, now),
            final(self).clock == old(self).clock,
    {
        let now: u128 = self.clock.now_ns();
        self.cleanup_expired_at(now);
    }

    fn give(&mut self, ports: &[u32], player_id: &str, source_id: &str)
        ensures
            final(self)@ == given(old(self)@, ports@, active_owner(player_id@, source_id@)),
            final(self).clock == old(self).clock,
    {
        broadcast use vstd::std_specs::hash::group_hash_axioms;

        let ghost before = self@;
        let ghost owner = active_owner(player_id@, source_id@);
        let mut i: usize = 0;
        assert(self@ =~= given(before, ports@.take(0), owner));
        while i < ports.len()
            invariant
                i <= ports@.len(),
                self.clock == old(self).clock,
                owner == active_owner(player_id@, source_id@),
                self@ == given(before, ports@.take(i as int), owner),
            decreases ports@.len() - i,
        {
            let ghost table = self.per_port@;
            let entry = PortOwner {
                player_id: player_id.to_owned(),
                source_id: source_id.to_owned(),
                reconnect_until: None,
            };
            self.per_port.insert(ports[i], entry);
            proof {
                let seen = ports@.take(i as int);
                let next = ports@.take(i + 1);
                assert(next =~= seen.push(ports@[i as int]));
                assert(entry@ == owner);
                assert(self@ =~= ports_view(table).insert(ports@[i as int], owner));
                assert forall|p: u32| next.contains(p) <==> (seen.contains(p) || p
                    == ports@[i as int]) by {
                    if next.contains(p) {
                        let k = choose|k: int| 0 <= k < next.len() && next[k] == p;
                        if k < seen.len() {
                            assert(seen[k] == p);
                        }
                    }
                    if seen.contains(p) {
                        let k = choose|k: int| 0 <= k < seen.len() && seen[k] == p;
                        assert(next[k] == p);
                    }
                    if p == ports@[i as int] {
                        assert(next[i as int] == p);
                    }
                }
                assert(self@ =~= given(before, next, owner));
            }
            i += 1;
        }
        assert(ports@.take(i as int) =~= ports@);
    }

    /// Gives ports to a player's source at `now`. A player who holds a token for a
    /// port takes it over from whoever is there, but a port that is being kept for
    /// another player who may come back is not given away.
    pub fn reserve_ports_at(
        &mut self,
        now: u128,
        source_id: &str,
        player_id: &str,
        ports: &[u32],
        reconnect_window_ns: u128,
    ) -> (answer: Result<(), String>)
        ensures
            reserve_outcome(
                old(self)@,
                now,
                ports@,
                player_id@,
                source_id@,
                final(self)@,
                answer,
            ),
            final(self).clock == old(self).clock,
    {
        broadcast use vstd::std_specs::hash::group_hash_axioms;

        self.cleanup_expired_at(now);
        let ghost held = self@;
        let mut i: usize = 0;
        while i < ports.len()
            invariant
                i <= ports@.len(),
                self.clock == old(self).clock,
                held == self@,
                held == still_held(old(self)@, now),
                forall|j: int|
                    0 <= j < i ==> !kept_for_another(
                        held,
                        #[trigger] ports@[j],
                        player_id@,
                        source_id@,
                    ),
            decreases ports@.len() - i,
        {
            let port: u32 = ports[i];
            if let Some(owner) = self.per_port.get(&port) {
                if owner.reconnect_until.is_some() && !text::same_text(
                    owner.player_id.as_str(),
                    player_id,
                ) && !text::same_text(owner.source_id.as_str(), source_id) {
                    let mut why = "port ".to_owned();
                    text::push_decimal(&mut why, port as u64);
                    why.append(" already assigned to another player");
                    assert(first_kept(held, ports@, player_id@, source_id@, i as int));
                    return Err(why);
                }
            }
            i += 1;
        }
        self.give(ports, player_id, source_id);
        if reconnect_window_ns == 0 {
            let ghost given_out = self@;
            self.cleanup_expired_at(now);
            assert(self@ =~= given_out);
        }
        Ok(())
    }

    /// Gives ports to a player's source, unless one is being kept for another
    /// player.
    pub fn reserve_ports(
        &mut self,
        source_id: &str,
        player_id: &str,
        ports: &[u32],
        reconnect_window_ns: u128,
    ) -> (answer: Result<(), String>)
        ensures
            exists|now: u128|
                now <= MAX_DURATION_NS && #[trigger] reserve_outcome(
                    old(self)@,
                    now,
                    ports@,
                    player_id@,
                    source_id@,
                    final(self)@,
                    answer,
                ),
            final(self).clock == old(self).clock,
    {
        let now: u128 = self.clock.now_ns();
        self.reserve_ports_at(now, source_id, player_id, ports, reconnect_window_ns)
    }

    /// Leases ports to a player's source at `now`: none of them may be another
    /// player's, nor in use by another source of the player.
    pub fn lease_ports_at(
        &mut self,
        now: u128,
        source_id: &str,
        player_id: &str,
        ports: &[u32],
    ) -> (answer: Result<(), String>)
        ensures
            lease_outcome(
                old(self)@,
                now,
                ports@,
                player_id@,
                source_id@,
                final(self)@,
                answer,
            ),
            final(self).clock == old(self).clock,
    {
        broadcast use vstd::std_specs::hash::group_hash_axioms;

        self.cleanup_expired_at(now);
        let ghost held = self@;
        let mut i: usize = 0;
        while i < ports.len()
            invariant
                i <= ports@.len(),
                self.clock == old(self).clock,
                held == self@,
                held == still_held(old(self)@, now),
                forall|j: int|
                    0 <= j < i ==> lease_conflict(
                        held,
                        #[trigger] ports@[j],
                        player_id@,
                        source_id@,
                    ) is None,
            decreases ports@.len() - i,
        {
            let port: u32 = ports[i];
            if let Some(owner) = self.per_port.get(&port) {
                if !text::same_text(owner.source_id.as_str(), source_id) {
                    let tail = if !text::same_text(owner.player_id.as_str(), player_id) {
                        " already assigned to another player"
                    } else {
                        " already active for this player"
                    };
                    if !text::same_text(owner.player_id.as_str(), player_id)
                        || owner.reconnect_until.is_none() {
                        let mut why = "port ".to_owned();
                        text::push_decimal(&mut why, port as u64);
                        why.append(tail);
                        assert(first_conflict(held, ports@, player_id@, source_id@, i as int));
                        return Err(why);
                    }
                }
            }
            i += 1;
        }
        self.give(ports, player_id, source_id);
        Ok(())
    }

    /// Leases ports to a player's source.
    pub fn lease_ports(&mut self, source_id: &str, player_id: &str, ports: &[u32]) -> (answer: Result<
        (),
        String,
    >)
        ensures
            exists|now: u128|
                now <= MAX_DURATION_NS && #[trigger] lease_outcome(
                    old(self)@,
                    now,
                    ports@,
                    player_id@,
                    source_id@,
                    final(self)@,
                    answer,
                ),
            final(self).clock == old(self).clock,
    {
        let now: u128 = self.clock.now_ns();
        self.lease_ports_at(now, source_id, player_id, ports)
    }

    /// Whether a source has a port and is there.
    pub fn is_source_owner(&self, source_id: &str, port: u32) -> (is: bool)
        ensures
            is == owns(self@, source_id@, port),
    {
        broadcast use vstd::std_specs::hash::group_hash_axioms;

        match self.per_port.get(&port) {
            Some(owner) => text::same_text(owner.source_id.as_str(), source_id)
                && owner.reconnect_until.is_none(),
            None => false,
        }
    }

    /// Notes at `now` that a source is gone: its ports are kept for its player
    /// for a while.
    pub fn mark_disconnected_at(&mut self, now: u128, source_id: &str, reconnect_window_ns: u128)
        requires
            now + reconnect_window_ns <= u128::MAX,
        ensures
            final(self)@ == released(
                still_held(old(self)@, now),
                source_id@,
                (now + reconnect_window_ns) as u128,
            ),
            final(self).clock == old(self).clock,
    {
        broadcast use vstd::std_specs::hash::group_hash_axioms;

        self.cleanup_expired_at(now);
        let until: u128 = now + reconnect_window_ns;
        let ghost before = self.per_port@;
        let ghost want = released(ports_view(before), source_id@, until);
        let list = ports_of(&self.per_port);
        let mut i: usize = 0;
        while i < list.len()
            invariant
                i <= list@.len(),
                self.clock == old(self).clock,
                want == released(ports_view(before), source_id@, until),
                forall|p: u32| #[trigger] list@.contains(p) <==> before.contains_key(p),
                forall|p: u32| #[trigger]
                    self.per_port@.contains_key(p) <==> before.contains_key(p),
                forall|p: u32| #[trigger]
                    self.per_port@.contains_key(p) ==> (self.per_port@[p]@ == want[p]
                        || self.per_port@[p] == before[p]),
                forall|j: int|
                    0 <= j < i ==> self.per_port@[#[trigger] list@[j]]@ == want[list@[j]],
            decreases list@.len() - i,
        {
            let port: u32 = list[i];
            assert(list@.contains(list@[i as int]));
            let next = match self.per_port.get(&port) {
                Some(owner) => if text::same_text(owner.source_id.as_str(), source_id) {
                    Some(
                        PortOwner {
                            player_id: owner.player_id.clone(),
                            source_id: owner.source_id.clone(),
                            reconnect_until: Some(until),
                        },
                    )
                } else {
                    None
                },
                None => None,
            };
            let ghost table = self.per_port@;
            if let Some(owner) = next {
                self.per_port.insert(port, owner);
                assert(self.per_port@[port]@ =~= want[port]);
            } else {
                assert(self.per_port@[port]@ =~= want[port]);
            }
            i += 1;
        }
        proof {
            let after = self.per_port@;
            assert forall|p: u32| after.contains_key(p) implies after[p]@ == want[p] by {
                assert(list@.contains(p));
                let j = choose|j: int| 0 <= j < list@.len() && list@[j] == p;
                assert(after[list@[j]]@ == want[list@[j]]);
            }
            assert(ports_view(after) =~= want);
        }
    }

    /// Notes that a source is gone: its ports are kept for its player for a
    /// while.
    pub fn mark_disconnected(&mut self, source_id: &str, reconnect_window_ns: u128)
        requires
            reconnect_window_ns <= MAX_DURATION_NS,
        ensures
            exists|now: u128|
                now <= MAX_DURATION_NS && final(self)@ == released(
                    #[trigger] still_held(old(self)@, now),
                    source_id@,
                    (now + reconnect_window_ns) as u128,
                ),
            final(self).clock == old(self).clock,
    {
        let now: u128 = self.clock.now_ns();
        self.mark_disconnected_at(now, source_id, reconnect_window_ns);
    }
}

/// A source that has been given ports has all of them, and what it was not given
/// is as before.
pub proof fn law_given_is_owned(
    ports: PortsModel,
    list: Seq<u32>,
    player_id: Seq<char>,
    source_id: Seq<char>,
    port: u32,
)
    ensures
        list.contains(port) ==> owns(
            given(ports, list, active_owner(player_id, source_id)),
            source_id,
            port,
        ),
        !list.contains(port) ==> (given(
            ports,
            list,
            active_owner(player_id, source_id),
        ).contains_key(port) <==> ports.contains_key(port)),
{
}

/// No port has two sources.
pub proof fn law_one_source_per_port(
    ports: PortsModel,
    a: Seq<char>,
    b: Seq<char>,
    port: u32,
)
    requires
        owns(ports, a, port),
        owns(ports, b, port),
    ensures
        a == b,
{
}

/// A source that is gone has no port any more, though its player can have it
/// back until the time has passed, and nobody keeps it after.
pub proof fn law_reconnect_window(
    ports: PortsModel,
    source_id: Seq<char>,
    until: u128,
    later: u128,
    port: u32,
)
    requires
        ports.contains_key(port),
        ports[port].source_id == source_id,
    ensures
        ({
            let after = released(ports, source_id, until);
            &&& !owns(after, source_id, port)
            &&& after.contains_key(port)
            &&& after[port].player_id == ports[port].player_id
            &&& still_held(after, later).contains_key(port) <==> later < until
        }),
{
}

/// While a player may come back, no other player gets the port by whatever list
/// it is asked for with, and it stays kept; the player gets it, from any source;
/// and once the time has passed anybody does.
pub proof fn law_port_waits_for_its_player(
    before: PortsModel,
    gone: Seq<char>,
    until: u128,
    now: u128,
    list: Seq<u32>,
    port: u32,
    player_id: Seq<char>,
    source_id: Seq<char>,
    after: PortsModel,
    answer: Result<(), String>,
)
    requires
        before.contains_key(port),
        before[port].source_id == gone,
        source_id != gone,
        list.contains(port),
        reserve_outcome(
            released(before, gone, until),
            now,
            list,
            player_id,
            source_id,
            after,
            answer,
        ),
    ensures
        now < until && before[port].player_id != player_id ==> answer is Err
            && after.contains_key(port) && after[port] == released(before, gone, until)[port],
        list == seq![port] && (now >= until || before[port].player_id == player_id) ==> answer is Ok
            && owns(after, source_id, port),
{
    let i = choose|i: int| 0 <= i < list.len() && list[i] == port;
    assert(list[i] == port);
    if list == seq![port] && answer is Ok {
        assert(list[0] == port);
    }
}

/// A player who asks for a port whose source is still there takes it over.
pub proof fn law_port_is_taken_over(
    before: PortsModel,
    now: u128,
    port: u32,
    player_id: Seq<char>,
    source_id: Seq<char>,
    after: PortsModel,
    answer: Result<(), String>,
)
    requires
        before.contains_key(port),
        before[port].reconnect_until is None,
        reserve_outcome(before, now, seq![port], player_id, source_id, after, answer),
    ensures
        answer is Ok,
        owns(after, source_id, port),
{
    assert(seq![port].contains(port)) by {
        assert(seq![port][0] == port);
    }
}

/// While a player may come back, no other player can lease the port, and the
/// player can, from any source; once the time has passed anybody can.
pub proof fn law_lease_waits_for_its_player(
    before: PortsModel,
    gone: Seq<char>,
    until: u128,
    now: u128,
    port: u32,
    player_id: Seq<char>,
    source_id: Seq<char>,
)
    requires
        before.contains_key(port),
        before[port].source_id == gone,
        source_id != gone,
    ensures
        ({
            let ports = still_held(released(before, gone, until), now);
            let conflict = lease_conflict(ports, port, player_id, source_id);
            &&& now < until && before[port].player_id != player_id ==> conflict is Some
            &&& now < until && before[port].player_id == player_id ==> conflict is None
            &&& now >= until ==> conflict is None
        }),
{
}

} // verus!
