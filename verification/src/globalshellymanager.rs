//! The sessions of the actuators of the first generation.

use crate::bridge::ShellyDiscoveryResult;
use crate::shellymanager::{ShellyManager, ShellyView, PONG_TIMEOUT_SECS};
use crate::utils::is_older_than;
use crate::text::{contains_seq, str_contains, str_eq};
use vstd::prelude::*;

verus! {

/// The sessions, in the order in which they were opened.
#[derive(Debug)]
pub struct GlobalShellyManager {
    pub shelly_list: Vec<ShellyManager>,
}

/// The views of a list of sessions.
pub open spec fn sessions_view(s: Seq<ShellyManager>) -> Seq<ShellyView> {
    Seq::new(s.len(), |i: int| s[i]@)
}

impl View for GlobalShellyManager {
    type V = Seq<ShellyView>;

    open spec fn view(&self) -> Seq<ShellyView> {
        sessions_view(self.shelly_list@)
    }
}

/// Whether some session is that of the device with an address.
pub open spec fn has_address(sessions: Seq<ShellyView>, mac: Seq<char>) -> bool {
    exists|i: int| 0 <= i < sessions.len() && (#[trigger] sessions[i]).mac_address == mac
}

/// Every device has one session at most: the list is keyed by the device
/// address.
pub open spec fn addresses_stand_once(sessions: Seq<ShellyView>) -> bool {
    forall|i: int, j: int|
        0 <= i < j < sessions.len() ==> (#[trigger] sessions[i]).mac_address != (#[trigger] sessions[j]).mac_address
}

/// The sessions with one more, unless its device has a session already.
pub open spec fn with_session(sessions: Seq<ShellyView>, shelly: ShellyView) -> Seq<ShellyView> {
    if has_address(sessions, shelly.mac_address) {
        sessions
    } else {
        sessions.push(shelly)
    }
}

/// The sessions after an attempt to connect the session at a place anew:
/// where it succeeded the session starts over at that time, where it failed
/// the session leaves the list. A place beyond the list names no session.
pub open spec fn after_reconnect(sessions: Seq<ShellyView>, place: int, connected: bool, now: u64) -> Seq<
    ShellyView,
> {
    if place < 0 || place >= sessions.len() {
        sessions
    } else if connected {
        sessions.update(
            place,
            (ShellyView {
                ip: sessions[place].ip,
                mac_address: sessions[place].mac_address,
                url: sessions[place].url,
                last_pong_timestamp: now,
                last_action_timestamp: 0,
                user_login: sessions[place].user_login,
                user_password: sessions[place].user_password,
            }),
        )
    } else {
        sessions.remove(place)
    }
}

/// Taking a session out leaves every device with one session at most.
pub proof fn lemma_remove_keeps_addresses(sessions: Seq<ShellyView>, place: int)
    requires
        0 <= place < sessions.len(),
        addresses_stand_once(sessions),
    ensures
        addresses_stand_once(sessions.remove(place)),
{
    let r = sessions.remove(place);
    assert forall|i: int, j: int| 0 <= i < j < r.len() implies (#[trigger] r[i]).mac_address != (
    #[trigger] r[j]).mac_address by {
        let a = if i < place {
            i
        } else {
            i + 1
        };
        let b = if j < place {
            j
        } else {
            j + 1
        };
        assert(r[i] == sessions[a]);
        assert(r[j] == sessions[b]);
    }
}

/// The index of the first session at or after `from` with a device address.
pub open spec fn first_session(sessions: Seq<ShellyView>, mac: Seq<char>, from: int) -> Option<int>
    decreases sessions.len() - from,
{
    if from < 0 || from >= sessions.len() {
        None
    } else if sessions[from].mac_address == mac {
        Some(from)
    } else {
        first_session(sessions, mac, from + 1)
    }
}

/// The sessions without the first one with a device address.
pub open spec fn without_session(sessions: Seq<ShellyView>, mac: Seq<char>) -> Seq<ShellyView> {
    match first_session(sessions, mac, 0) {
        Some(i) => sessions.remove(i),
        None => sessions,
    }
}

/// The places of the sessions with a device address among the first
/// sessions of a list.
pub open spec fn sessions_with(sessions: Seq<ShellyView>, mac: Seq<char>) -> Seq<usize>
    decreases sessions.len(),
{
    if sessions.len() == 0 {
        Seq::empty()
    } else if sessions.last().mac_address == mac {
        sessions_with(sessions.drop_last(), mac).push((sessions.len() - 1) as usize)
    } else {
        sessions_with(sessions.drop_last(), mac)
    }
}

/// The places of the sessions, among the first of a list, whose device has
/// not answered a ping for more than the timeout.
pub open spec fn stale_sessions(sessions: Seq<ShellyView>, now: u64) -> Seq<usize>
    decreases sessions.len(),
{
    if sessions.len() == 0 {
        Seq::empty()
    } else if is_older_than(sessions.last().last_pong_timestamp, now, PONG_TIMEOUT_SECS) {
        stale_sessions(sessions.drop_last(), now).push((sessions.len() - 1) as usize)
    } else {
        stale_sessions(sessions.drop_last(), now)
    }
}

/// The sessions whose place is not among the places, in their order.
pub open spec fn without_places(sessions: Seq<ShellyView>, places: Seq<usize>) -> Seq<ShellyView>
    decreases sessions.len(),
{
    if sessions.len() == 0 {
        sessions
    } else if places.contains((sessions.len() - 1) as usize) {
        without_places(sessions.drop_last(), places)
    } else {
        without_places(sessions.drop_last(), places).push(sessions.last())
    }
}

/// Dropping sessions leaves only sessions that were there, and every device
/// with one session at most.
pub proof fn lemma_without_places_keeps_addresses(sessions: Seq<ShellyView>, places: Seq<usize>)
    ensures
        forall|mac: Seq<char>| has_address(without_places(sessions, places), mac) ==> has_address(sessions, mac),
        addresses_stand_once(sessions) ==> addresses_stand_once(without_places(sessions, places)),
    decreases sessions.len(),
{
    if sessions.len() > 0 {
        let head = sessions.drop_last();
        let w = without_places(sessions, places);
        let wh = without_places(head, places);
        lemma_without_places_keeps_addresses(head, places);
        assert forall|mac: Seq<char>| has_address(w, mac) implies has_address(sessions, mac) by {
            let i = choose|i: int| 0 <= i < w.len() && (#[trigger] w[i]).mac_address == mac;
            if i < wh.len() {
                assert(w[i] == wh[i]);
                assert(wh[i].mac_address == mac);
                assert(has_address(wh, mac));
                assert(has_address(head, mac));
                let j = choose|j: int| 0 <= j < head.len() && (#[trigger] head[j]).mac_address == mac;
                assert(sessions[j] == head[j]);
                assert(sessions[j].mac_address == mac);
            } else {
                assert(w[i] == sessions[sessions.len() - 1]);
                assert(sessions[sessions.len() - 1].mac_address == mac);
            }
        }
        if addresses_stand_once(sessions) {
            assert forall|i: int, j: int| 0 <= i < j < head.len() implies (#[trigger] head[i]).mac_address != (
            #[trigger] head[j]).mac_address by {
                assert(head[i] == sessions[i]);
                assert(head[j] == sessions[j]);
            }
            assert forall|i: int, j: int| 0 <= i < j < w.len() implies (#[trigger] w[i]).mac_address != (
            #[trigger] w[j]).mac_address by {
                if j < wh.len() {
                    assert(w[i] == wh[i]);
                    assert(w[j] == wh[j]);
                } else {
                    assert(w[i] == wh[i]);
                    assert(has_address(wh, wh[i].mac_address));
                    assert(has_address(head, wh[i].mac_address));
                    let k = choose|k: int|
                        0 <= k < head.len() && (#[trigger] head[k]).mac_address == wh[i].mac_address;
                    assert(sessions[k] == head[k]);
                    assert(w[j] == sessions[sessions.len() - 1]);
                }
            }
        }
    }
}

/// Which sessions stay depends only on which of their places are named.
pub proof fn lemma_without_places_by_membership(sessions: Seq<ShellyView>, p: Seq<usize>, q: Seq<usize>)
    requires
        forall|i: usize| i < sessions.len() ==> #[trigger] p.contains(i) == q.contains(i),
    ensures
        without_places(sessions, p) == without_places(sessions, q),
    decreases sessions.len(),
{
    if sessions.len() > 0 {
        lemma_without_places_by_membership(sessions.drop_last(), p, q);
    }
}

fn has_place(places: &Vec<usize>, place: usize) -> (r: bool)
    ensures
        r == places@.contains(place),
{
    let mut i: usize = 0;
    while i < places.len()
        invariant
            i <= places.len(),
            forall|j: int| 0 <= j < i ==> places@[j] != place,
        decreases places.len() - i,
    {
        if places[i] == place {
            return true;
        }
        i += 1;
    }
    false
}

/// Where every device has one session at most, an action for a device
/// address goes to one session at most.
pub proof fn lemma_one_session_per_address(sessions: Seq<ShellyView>, mac: Seq<char>)
    requires
        addresses_stand_once(sessions),
    ensures
        sessions_with(sessions, mac).len() <= 1,
        !has_address(sessions, mac) ==> sessions_with(sessions, mac).len() == 0,
    decreases sessions.len(),
{
    if sessions.len() > 0 {
        let head = sessions.drop_last();
        assert forall|i: int, j: int| 0 <= i < j < head.len() implies (#[trigger] head[i]).mac_address != (
        #[trigger] head[j]).mac_address by {
            assert(head[i] == sessions[i]);
            assert(head[j] == sessions[j]);
        }
        lemma_one_session_per_address(head, mac);
        if has_address(head, mac) {
            let k = choose|k: int| 0 <= k < head.len() && (#[trigger] head[k]).mac_address == mac;
            assert(sessions[k] == head[k]);
            assert(sessions[k].mac_address == mac);
            assert(sessions[k].mac_address != sessions[sessions.len() - 1].mac_address);
        } else if sessions.last().mac_address != mac {
            if has_address(sessions, mac) {
                let k = choose|k: int| 0 <= k < sessions.len() && (#[trigger] sessions[k]).mac_address == mac;
                assert(head[k] == sessions[k]);
                assert(head[k].mac_address == mac);
            }
        } else {
            assert(sessions[sessions.len() - 1].mac_address == mac);
        }
    }
}

/// The device address that the failure of a session names: the failure's
/// text, where it holds a colon.
pub open spec fn failed_address(text: Seq<char>) -> Option<Seq<char>> {
    if contains_seq(text, ":"@) {
        Some(text)
    } else {
        None
    }
}

impl GlobalShellyManager {
    /// No sessions.
    pub fn new() -> (r: GlobalShellyManager)
        ensures
            r@.len() == 0,
            addresses_stand_once(r@),
    {
        GlobalShellyManager { shelly_list: Vec::new() }
    }

    fn knows(&self, mac_address: &str) -> (r: bool)
        ensures
            r == has_address(self@, mac_address@),
    {
        let mut i: usize = 0;
        while i < self.shelly_list.len()
            invariant
                i <= self.shelly_list.len(),
                forall|j: int| 0 <= j < i ==> (#[trigger] self@[j]).mac_address != mac_address@,
            decreases self.shelly_list.len() - i,
        {
            assert(self@[i as int] == self.shelly_list@[i as int]@);
            if str_eq(self.shelly_list[i].mac_address.as_str(), mac_address) {
                return true;
            }
            i += 1;
        }
        false
    }

    /// Whether a discovered device has no session yet, so that one is to be
    /// opened. A device is known by its address, whatever its address on
    /// the network is.
    pub fn is_new(&self, shelly_disc_result: &ShellyDiscoveryResult) -> (r: bool)
        ensures
            r == !has_address(self@, shelly_disc_result@.mac_address),
    {
        !self.knows(shelly_disc_result.mac_address.as_str())
    }

    /// Adds the session of a device, once it is connected, and says whether
    /// it did. A device that has a session already gets no second one: the
    /// list stays as it is then.
    pub fn insert_shelly(&mut self, shelly: ShellyManager) -> (inserted: bool)
        ensures
            final(self)@ == with_session(old(self)@, shelly@),
            inserted == !has_address(old(self)@, shelly@.mac_address),
            addresses_stand_once(old(self)@) ==> addresses_stand_once(final(self)@),
    {
        if self.knows(shelly.mac_address.as_str()) {
            return false;
        }
        self.shelly_list.push(shelly);
        proof {
            assert(self@ =~= old(self)@.push(shelly@));
            if addresses_stand_once(old(self)@) {
                assert forall|i: int, j: int| 0 <= i < j < self@.len() implies (#[trigger] self@[i]).mac_address != (
                #[trigger] self@[j]).mac_address by {
                    assert(self@[i] == old(self)@[i]);
                    if j < old(self)@.len() {
                        assert(self@[j] == old(self)@[j]);
                    }
                }
            }
        }
        true
    }

    /// Takes note of an attempt to connect the session at a place anew, at
    /// a time: a session that was connected starts over, one that could not
    /// be connected is dropped.
    pub fn reconnected(&mut self, place: usize, connected: bool, now: u64)
        ensures
            final(self)@ == after_reconnect(old(self)@, place as int, connected, now),
            addresses_stand_once(old(self)@) ==> addresses_stand_once(final(self)@),
    {
        if place >= self.shelly_list.len() {
            return ;
        }
        proof {
            if addresses_stand_once(self@) {
                lemma_remove_keeps_addresses(self@, place as int);
            }
        }
        let mut session = self.shelly_list.remove(place);
        assert(self@ =~= old(self)@.remove(place as int));
        if connected {
            assert(session@ == old(self)@[place as int]);
            session.reconnect(now);
            self.shelly_list.insert(place, session);
            proof {
                let after = after_reconnect(old(self)@, place as int, connected, now);
                assert(self@ =~= after);
                if addresses_stand_once(old(self)@) {
                    assert forall|i: int, j: int| 0 <= i < j < after.len() implies (#[trigger] after[i]).mac_address
                        != (#[trigger] after[j]).mac_address by {
                        assert(after[i].mac_address == old(self)@[i].mac_address);
                        assert(after[j].mac_address == old(self)@[j].mac_address);
                    }
                }
            }
        }
    }

    /// The places of the sessions that an action for a device address goes
    /// to.
    pub fn send_action(&self, mac_address: &str) -> (r: Vec<usize>)
        ensures
            r@ == sessions_with(self@, mac_address@),
    {
        let mut out: Vec<usize> = Vec::new();
        let ghost all = self@;
        let mut i: usize = 0;
        assert(all.take(0) =~= Seq::empty());
        while i < self.shelly_list.len()
            invariant
                i <= self.shelly_list.len(),
                all == self@,
                out@ == sessions_with(all.take(i as int), mac_address@),
            decreases self.shelly_list.len() - i,
        {
            proof {
                assert(all.take(i + 1).drop_last() =~= all.take(i as int));
                assert(all.take(i + 1).last() == self.shelly_list@[i as int]@);
            }
            if str_eq(self.shelly_list[i].mac_address.as_str(), mac_address) {
                out.push(i);
            }
            i += 1;
        }
        assert(all.take(i as int) =~= all);
        out
    }

    /// Drops the first session of a device, after its socket failed. The
    /// failure names the device by its address, which holds a colon; a
    /// failure without one drops nothing.
    pub fn wait_for_shelly_message(&mut self, failure: &str)
        ensures
            final(self)@ == match failed_address(failure@) {
                Some(mac) => without_session(old(self)@, mac),
                None => old(self)@,
            },
            addresses_stand_once(old(self)@) ==> addresses_stand_once(final(self)@),
    {
        if !str_contains(failure, ":") {
            return ;
        }
        let mut i: usize = 0;
        while i < self.shelly_list.len()
            invariant
                i <= self.shelly_list.len(),
                self@ == old(self)@,
                contains_seq(failure@, ":"@),
                first_session(self@, failure@, 0) == first_session(self@, failure@, i as int),
            decreases self.shelly_list.len() - i,
        {
            assert(self@[i as int] == self.shelly_list@[i as int]@);
            if str_eq(self.shelly_list[i].mac_address.as_str(), failure) {
                proof {
                    if addresses_stand_once(self@) {
                        lemma_remove_keeps_addresses(self@, i as int);
                    }
                }
                self.shelly_list.remove(i);
                assert(self@ =~= old(self)@.remove(i as int));
                return ;
            }
            i += 1;
        }
    }

    /// Drops the sessions at the places named, and keeps the others in
    /// their order. A place beyond the list names no session.
    pub fn drop_sessions(&mut self, places: &Vec<usize>)
        ensures
            final(self)@ == without_places(old(self)@, places@),
            addresses_stand_once(old(self)@) ==> addresses_stand_once(final(self)@),
    {
        proof {
            lemma_without_places_keeps_addresses(self@, places@);
        }
        let mut kept: Vec<ShellyManager> = Vec::new();
        let ghost all = self@;
        let mut i: usize = 0;
        assert(all.take(0) =~= Seq::empty());
        while i < self.shelly_list.len()
            invariant
                i <= self.shelly_list.len(),
                all == self@,
                sessions_view(kept@) == without_places(all.take(i as int), places@),
            decreases self.shelly_list.len() - i,
        {
            let ghost before = sessions_view(kept@);
            proof {
                assert(all.take(i + 1).drop_last() =~= all.take(i as int));
                assert(all.take(i + 1).last() == self.shelly_list@[i as int]@);
            }
            if !has_place(places, i) {
                let s = &self.shelly_list[i];
                kept.push(
                    ShellyManager {
                        ip: s.ip.clone(),
                        mac_address: s.mac_address.clone(),
                        url: s.url.clone(),
                        last_pong_timestamp: s.last_pong_timestamp,
                        last_action_timestamp: s.last_action_timestamp,
                        user_login: s.user_login.clone(),
                        user_password: s.user_password.clone(),
                    },
                );
                assert(sessions_view(kept@) =~= before.push(self.shelly_list@[i as int]@));
            }
            i += 1;
        }
        assert(all.take(i as int) =~= all);
        self.shelly_list = kept;
    }

    /// The places of the sessions whose device has not answered a ping for
    /// more than the timeout, and which are to be connected anew.
    pub fn check_if_reconnect_needed(&self, now: u64) -> (r: Vec<usize>)
        ensures
            r@ == stale_sessions(self@, now),
    {
        let mut out: Vec<usize> = Vec::new();
        let ghost all = self@;
        let mut i: usize = 0;
        assert(all.take(0) =~= Seq::empty());
        while i < self.shelly_list.len()
            invariant
                i <= self.shelly_list.len(),
                all == self@,
                out@ == stale_sessions(all.take(i as int), now),
            decreases self.shelly_list.len() - i,
        {
            proof {
                assert(all.take(i + 1).drop_last() =~= all.take(i as int));
                assert(all.take(i + 1).last() == self.shelly_list@[i as int]@);
            }
            if self.shelly_list[i].needs_reconnect(now) {
                out.push(i);
            }
            i += 1;
        }
        assert(all.take(i as int) =~= all);
        out
    }
}

} // verus!
