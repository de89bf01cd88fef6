//! The queue of radiator valve commands and the choice of the actuator that
//! carries them.

use crate::json::{list_view, Json, JsonView};
use crate::keyed::{
    distinct_keys, drop_key, entries_view, find_key, has_key, lemma_position_bounds, lemma_position_first,
    lemma_position_none, lemma_put_keeps_distinct, lemma_put_value, lemma_without_keeps_distinct, position, put,
    put_entry, value_of, without,
};
use crate::messages::{ESP32CommandMessage, ESP32CommandType, ESP32CommandView};
use crate::text::str_eq;
use vstd::prelude::*;
use vstd::string::*;

verus! {

/// A queued valve command: the command as it came, and how often it was
/// sent.
#[derive(Debug)]
pub struct ValveData {
    pub desired_state: Json,
    pub attempts: usize,
}

/// The model of a queued valve command.
pub struct ValveDataView {
    pub desired_state: JsonView,
    pub attempts: usize,
}

impl View for ValveData {
    type V = ValveDataView;

    open spec fn view(&self) -> ValveDataView {
        ValveDataView { desired_state: self.desired_state@, attempts: self.attempts }
    }
}

/// The actuator that heard a valve best, with the signal strength and the
/// time of that observation in milliseconds.
#[derive(Debug)]
pub struct BestActuatorData {
    pub actuator_mac_address: String,
    pub rssi: i64,
    pub timestamp: u64,
}

/// The model of a best actuator.
pub struct BestActuatorView {
    pub actuator_mac_address: Seq<char>,
    pub rssi: i64,
    pub timestamp: u64,
}

impl View for BestActuatorData {
    type V = BestActuatorView;

    open spec fn view(&self) -> BestActuatorView {
        BestActuatorView {
            actuator_mac_address: self.actuator_mac_address@,
            rssi: self.rssi,
            timestamp: self.timestamp,
        }
    }
}

/// The valve commands that wait for their valve to follow, and for each
/// valve the actuator that reaches it best. Both are keyed by the valve's
/// address.
#[derive(Debug)]
pub struct ValveCommandManager {
    pub valve_commands: Vec<(String, ValveData)>,
    pub best_actuator: Vec<(String, BestActuatorData)>,
}

/// The model of the manager: the queue and the best actuators.
pub struct ValveManagerView {
    pub valve_commands: Seq<(Seq<char>, ValveDataView)>,
    pub best_actuator: Seq<(Seq<char>, BestActuatorView)>,
}

impl ValveManagerView {
    /// Every valve stands once in the queue, and once among the best
    /// actuators: both are keyed by the valve's address.
    pub open spec fn keys_stand_once(self) -> bool {
        distinct_keys(self.valve_commands) && distinct_keys(self.best_actuator)
    }
}

impl View for ValveCommandManager {
    type V = ValveManagerView;

    open spec fn view(&self) -> ValveManagerView {
        ValveManagerView {
            valve_commands: entries_view(self.valve_commands@),
            best_actuator: entries_view(self.best_actuator@),
        }
    }
}

/// The most attempts that a command gets.
pub const MAX_ATTEMPTS: usize = 100;

/// The seconds after which a better actuator is no longer preferred to a
/// new observation.
pub const BEST_ACTUATOR_SECS: u64 = 30;

/// Whether more than a number of seconds lie between one time and a later
/// one, both given in milliseconds. A time is not older than an earlier
/// one.
pub open spec fn is_older_than(then: u64, now: u64, secs: u64) -> bool {
    now - then > secs * 1000
}

/// Whether more than a number of seconds lie between two times.
pub fn older_than(then: u64, now: u64, secs: u64) -> (r: bool)
    ensures
        r == is_older_than(then, now, secs),
{
    now > then && (now - then) as u128 > secs as u128 * 1000
}

/// Whether an observation replaces the recorded one: it is stronger, or the
/// recorded one is more than 30 seconds old.
pub open spec fn replaces(recorded: BestActuatorView, rssi: i64, now: u64) -> bool {
    recorded.rssi < rssi || is_older_than(recorded.timestamp, now, BEST_ACTUATOR_SECS)
}

/// The best actuators after one observation.
pub open spec fn observed(
    best: Seq<(Seq<char>, BestActuatorView)>,
    valve: Seq<char>,
    actuator: Seq<char>,
    rssi: i64,
    now: u64,
) -> Seq<(Seq<char>, BestActuatorView)> {
    let seen = BestActuatorView { actuator_mac_address: actuator, rssi, timestamp: now };
    match value_of(best, valve) {
        Some(recorded) => if replaces(recorded, rssi, now) {
            put(best, valve, seen)
        } else {
            best
        },
        None => put(best, valve, seen),
    }
}

/// Whether a cached valve topic is that of the valve and shows the state
/// that the command asks for.
pub open spec fn valve_follows(topic: JsonView, valve: Seq<char>, command: JsonView) -> bool {
    let value = topic.at("value"@);
    &&& value.at("mac_address"@).as_text() == Some(valve)
    &&& value.at("status"@).as_bool() is Some
    &&& value.at("status"@).as_bool() == command.at("desired_state"@).as_bool()
}

/// Whether some cached valve topic shows that the valve has followed.
pub open spec fn followed(topics: Seq<JsonView>, valve: Seq<char>, command: JsonView) -> bool {
    exists|i: int| 0 <= i < topics.len() && valve_follows(#[trigger] topics[i], valve, command)
}

/// What the periodic check does with one queued command.
pub enum Verdict {
    /// The command leaves the queue.
    Remove,
    /// The command stays as it is.
    Keep,
    /// The command is sent again through the actuator named.
    Resend(Seq<char>),
}

/// The verdict on one queued command: it leaves when its valve has followed
/// or when it has had all its attempts; otherwise it is sent again where an
/// actuator is known for the valve, and waits where none is.
pub open spec fn verdict(
    valve: Seq<char>,
    data: ValveDataView,
    best: Seq<(Seq<char>, BestActuatorView)>,
    topics: Seq<JsonView>,
) -> Verdict {
    if followed(topics, valve, data.desired_state) {
        Verdict::Remove
    } else if data.attempts < MAX_ATTEMPTS {
        match value_of(best, valve) {
            Some(b) => Verdict::Resend(b.actuator_mac_address),
            None => Verdict::Keep,
        }
    } else {
        Verdict::Remove
    }
}

/// The command that sends a queued valve command again.
pub open spec fn resent(valve: Seq<char>, data: ValveDataView, actuator: Seq<char>) -> ESP32CommandView {
    ESP32CommandView {
        command_type: ESP32CommandType::Valve,
        mac_address: valve,
        payload: data.desired_state,
        actuator_mac_address: actuator,
    }
}

/// The queue after the periodic check.
pub open spec fn checked_queue(
    queue: Seq<(Seq<char>, ValveDataView)>,
    best: Seq<(Seq<char>, BestActuatorView)>,
    topics: Seq<JsonView>,
) -> Seq<(Seq<char>, ValveDataView)>
    decreases queue.len(),
{
    if queue.len() == 0 {
        Seq::empty()
    } else {
        let head = checked_queue(queue.drop_last(), best, topics);
        let (valve, data) = queue.last();
        match verdict(valve, data, best, topics) {
            Verdict::Remove => head,
            Verdict::Keep => head.push((valve, data)),
            Verdict::Resend(_) => head.push(
                (valve, ValveDataView { desired_state: data.desired_state, attempts: (data.attempts + 1) as usize }),
            ),
        }
    }
}

/// The commands that the periodic check sends, in the order of the queue.
pub open spec fn checked_commands(
    queue: Seq<(Seq<char>, ValveDataView)>,
    best: Seq<(Seq<char>, BestActuatorView)>,
    topics: Seq<JsonView>,
) -> Seq<ESP32CommandView>
    decreases queue.len(),
{
    if queue.len() == 0 {
        Seq::empty()
    } else {
        let head = checked_commands(queue.drop_last(), best, topics);
        let (valve, data) = queue.last();
        match verdict(valve, data, best, topics) {
            Verdict::Resend(actuator) => head.push(resent(valve, data, actuator)),
            _ => head,
        }
    }
}

/// The views of a list of commands.
pub open spec fn commands_view(commands: Seq<ESP32CommandMessage>) -> Seq<ESP32CommandView> {
    Seq::new(commands.len(), |i: int| commands[i]@)
}

fn has_followed(topics: &Vec<Json>, valve: &str, command: &Json) -> (r: bool)
    ensures
        r == followed(list_view(topics@), valve@, command@),
{
    let wanted = command.at("desired_state").as_bool();
    let mut i: usize = 0;
    while i < topics.len()
        invariant
            i <= topics.len(),
            wanted == command@.at("desired_state"@).as_bool(),
            forall|j: int| 0 <= j < i ==> !valve_follows(#[trigger] list_view(topics@)[j], valve@, command@),
        decreases topics.len() - i,
    {
        let value = topics[i].at("value");
        let same_valve = match value.at("mac_address").as_str() {
            Some(mac) => str_eq(mac, valve),
            None => false,
        };
        if same_valve {
            match value.at("status").as_bool() {
                Some(status) => {
                    if wanted == Some(status) {
                        assert(valve_follows(list_view(topics@)[i as int], valve@, command@));
                        return true;
                    }
                },
                None => {},
            }
        }
        i += 1;
    }
    false
}

impl ValveCommandManager {
    /// An empty queue, and no actuator known.
    pub fn new() -> (r: ValveCommandManager)
        ensures
            r@.valve_commands.len() == 0,
            r@.best_actuator.len() == 0,
            r@.keys_stand_once(),
    {
        ValveCommandManager { best_actuator: Vec::new(), valve_commands: Vec::new() }
    }

    /// Takes the command for a valve out of the queue.
    pub fn remove(&mut self, valve_mac_address: &str)
        ensures
            final(self)@.valve_commands == without(old(self)@.valve_commands, valve_mac_address@),
            final(self)@.best_actuator == old(self)@.best_actuator,
            old(self)@.keys_stand_once() ==> final(self)@.keys_stand_once(),
    {
        proof {
            lemma_without_keeps_distinct(self@.valve_commands, valve_mac_address@);
        }
        drop_key(&mut self.valve_commands, valve_mac_address);
    }

    /// Queues a command for a valve, in the place of one that waits for it.
    pub fn insert(&mut self, valve_mac_address: &str, valve_data: ValveData)
        ensures
            final(self)@.valve_commands == put(
                old(self)@.valve_commands,
                valve_mac_address@,
                valve_data@,
            ),
            final(self)@.best_actuator == old(self)@.best_actuator,
            old(self)@.keys_stand_once() ==> final(self)@.keys_stand_once(),
    {
        proof {
            if self@.keys_stand_once() {
                lemma_put_keeps_distinct(self@.valve_commands, valve_mac_address@, valve_data@);
            }
        }
        put_entry(&mut self.valve_commands, valve_mac_address, valve_data);
    }

    /// Takes note that an actuator heard a valve with a signal strength at a
    /// time, given in milliseconds.
    pub fn update_best_actuator(
        &mut self,
        valve_mac_address: &str,
        actuator_mac_address: &str,
        rssi: i64,
        now: u64,
    )
        ensures
            final(self)@.best_actuator == observed(
                old(self)@.best_actuator,
                valve_mac_address@,
                actuator_mac_address@,
                rssi,
                now,
            ),
            final(self)@.valve_commands == old(self)@.valve_commands,
            old(self)@.keys_stand_once() ==> final(self)@.keys_stand_once(),
    {
        proof {
            if self@.keys_stand_once() {
                lemma_put_keeps_distinct(
                    self@.best_actuator,
                    valve_mac_address@,
                    BestActuatorView { actuator_mac_address: actuator_mac_address@, rssi, timestamp: now },
                );
            }
        }
        let replace = match find_key(&self.best_actuator, valve_mac_address) {
            Some(i) => {
                let data = &self.best_actuator[i].1;
                assert(entries_view(self.best_actuator@)[i as int].1 == data@);
                data.rssi < rssi || older_than(data.timestamp, now, BEST_ACTUATOR_SECS)
            },
            None => true,
        };
        if replace {
            let seen = BestActuatorData {
                actuator_mac_address: String::from_str(actuator_mac_address),
                rssi,
                timestamp: now,
            };
            put_entry(&mut self.best_actuator, valve_mac_address, seen);
        }
    }

    /// The actuator that reaches a valve best, where one is known.
    pub fn get_best_actuator_for_valve(&self, valve_mac_address: &str) -> (r: Option<String>)
        ensures
            match r {
                Some(actuator) => value_of(self@.best_actuator, valve_mac_address@) matches Some(b)
                    && b.actuator_mac_address == actuator@,
                None => value_of(self@.best_actuator, valve_mac_address@) is None,
            },
    {
        match find_key(&self.best_actuator, valve_mac_address) {
            Some(i) => {
                assert(entries_view(self.best_actuator@)[i as int].1 == self.best_actuator@[i as int].1@);
                Some(self.best_actuator[i].1.actuator_mac_address.clone())
            },
            None => None,
        }
    }

    /// The periodic check of the queue against the cached valve topics.
    /// Commands whose valve has followed leave, and so do those that have
    /// had all their attempts; the others are sent again through the best
    /// actuator of their valve, where one is known.
    pub fn check_valve_commands(&mut self, valves: &Vec<Json>) -> (r: Vec<ESP32CommandMessage>)
        ensures
            final(self)@.valve_commands == checked_queue(
                old(self)@.valve_commands,
                old(self)@.best_actuator,
                list_view(valves@),
            ),
            commands_view(r@) == checked_commands(
                old(self)@.valve_commands,
                old(self)@.best_actuator,
                list_view(valves@),
            ),
            final(self)@.best_actuator == old(self)@.best_actuator,
            old(self)@.keys_stand_once() ==> final(self)@.keys_stand_once(),
    {
        proof {
            lemma_checked_keeps_distinct(self@.valve_commands, self@.best_actuator, list_view(valves@));
        }
        let mut kept: Vec<(String, ValveData)> = Vec::new();
        let mut commands: Vec<ESP32CommandMessage> = Vec::new();
        let ghost queue = entries_view(self.valve_commands@);
        let ghost best = entries_view(self.best_actuator@);
        let ghost topics = list_view(valves@);
        let mut i: usize = 0;
        assert(queue.take(0) =~= Seq::empty());
        while i < self.valve_commands.len()
            invariant
                i <= self.valve_commands.len(),
                queue == entries_view(self.valve_commands@),
                best == entries_view(self.best_actuator@),
                topics == list_view(valves@),
                entries_view(kept@) == checked_queue(queue.take(i as int), best, topics),
                commands_view(commands@) == checked_commands(queue.take(i as int), best, topics),
            decreases self.valve_commands.len() - i,
        {
            let valve = &self.valve_commands[i].0;
            let data = &self.valve_commands[i].1;
            let ghost before_kept = entries_view(kept@);
            let ghost before_commands = commands_view(commands@);
            proof {
                assert(queue.take(i + 1).drop_last() =~= queue.take(i as int));
                assert(queue.take(i + 1).last() == (valve@, data@));
            }
            if has_followed(valves, valve.as_str(), &data.desired_state) {
            } else if data.attempts < MAX_ATTEMPTS {
                match self.get_best_actuator_for_valve(valve.as_str()) {
                    Some(actuator) => {
                        commands.push(
                            ESP32CommandMessage {
                                command_type: ESP32CommandType::Valve,
                                mac_address: valve.clone(),
                                payload: data.desired_state.duplicate(),
                                actuator_mac_address: actuator,
                            },
                        );
                        kept.push(
                            (
                                valve.clone(),
                                ValveData {
                                    desired_state: data.desired_state.duplicate(),
                                    attempts: data.attempts + 1,
                                },
                            ),
                        );
                        assert(commands_view(commands@) =~= before_commands.push(
                            resent(valve@, data@, actuator@),
                        ));
                        assert(entries_view(kept@) =~= before_kept.push(
                            (
                                valve@,
                                ValveDataView {
                                    desired_state: data@.desired_state,
                                    attempts: (data.attempts + 1) as usize,
                                },
                            ),
                        ));
                    },
                    None => {
                        kept.push(
                            (
                                valve.clone(),
                                ValveData {
                                    desired_state: data.desired_state.duplicate(),
                                    attempts: data.attempts,
                                },
                            ),
                        );
                        assert(entries_view(kept@) =~= before_kept.push((valve@, data@)));
                    },
                }
            }
            i += 1;
        }
        assert(queue.take(i as int) =~= queue);
        self.valve_commands = kept;
        commands
    }
}

/// A command leaves the queue at the periodic check exactly when its valve
/// has followed or it has had all its attempts.
pub proof fn lemma_verdict_removes(
    valve: Seq<char>,
    data: ValveDataView,
    best: Seq<(Seq<char>, BestActuatorView)>,
    topics: Seq<JsonView>,
)
    ensures
        verdict(valve, data, best, topics) is Remove <==> followed(topics, valve, data.desired_state)
            || data.attempts >= MAX_ATTEMPTS,
{
}

/// The queue after a number of periodic checks against the same cache and
/// the same actuators.
pub open spec fn checked_times(
    queue: Seq<(Seq<char>, ValveDataView)>,
    best: Seq<(Seq<char>, BestActuatorView)>,
    topics: Seq<JsonView>,
    times: nat,
) -> Seq<(Seq<char>, ValveDataView)>
    decreases times,
{
    if times == 0 {
        queue
    } else {
        checked_queue(checked_times(queue, best, topics, (times - 1) as nat), best, topics)
    }
}

/// A queue that holds one command.
pub open spec fn one_command(valve: Seq<char>, command: JsonView, attempts: usize) -> Seq<
    (Seq<char>, ValveDataView),
> {
    seq![(valve, ValveDataView { desired_state: command, attempts })]
}

proof fn lemma_check_one(
    valve: Seq<char>,
    data: ValveDataView,
    best: Seq<(Seq<char>, BestActuatorView)>,
    topics: Seq<JsonView>,
)
    ensures
        checked_queue(seq![(valve, data)], best, topics) == match verdict(valve, data, best, topics) {
            Verdict::Remove => Seq::<(Seq<char>, ValveDataView)>::empty(),
            Verdict::Keep => seq![(valve, data)],
            Verdict::Resend(_) => seq![
                (valve, ValveDataView { desired_state: data.desired_state, attempts: (data.attempts + 1) as usize }),
            ],
        },
        checked_commands(seq![(valve, data)], best, topics) == match verdict(valve, data, best, topics) {
            Verdict::Resend(actuator) => seq![resent(valve, data, actuator)],
            _ => Seq::<ESP32CommandView>::empty(),
        },
{
    let q = seq![(valve, data)];
    assert(q.drop_last() =~= Seq::empty());
    assert(q.last() == (valve, data));
    assert(checked_queue(q.drop_last(), best, topics) =~= Seq::empty());
    assert(checked_commands(q.drop_last(), best, topics) =~= Seq::empty());
    match verdict(valve, data, best, topics) {
        Verdict::Remove => {},
        Verdict::Keep => {
            assert(checked_queue(q, best, topics) =~= seq![(valve, data)]);
        },
        Verdict::Resend(actuator) => {
            assert(checked_queue(q, best, topics) =~= seq![
                (valve, ValveDataView { desired_state: data.desired_state, attempts: (data.attempts + 1) as usize }),
            ]);
            assert(checked_commands(q, best, topics) =~= seq![resent(valve, data, actuator)]);
        },
    }
}

/// A command whose valve has followed leaves the queue at the next check,
/// and is not sent again.
pub proof fn lemma_valve_completes(
    valve: Seq<char>,
    command: JsonView,
    attempts: usize,
    best: Seq<(Seq<char>, BestActuatorView)>,
    topics: Seq<JsonView>,
)
    requires
        followed(topics, valve, command),
    ensures
        checked_queue(one_command(valve, command, attempts), best, topics).len() == 0,
        checked_commands(one_command(valve, command, attempts), best, topics).len() == 0,
{
    lemma_check_one(valve, ValveDataView { desired_state: command, attempts }, best, topics);
}

/// A command whose valve does not follow is sent again at every check,
/// through the actuator that reaches the valve best, and each time counts
/// as one more attempt, until it has had all its attempts; the check after
/// that takes it out of the queue.
pub proof fn lemma_valve_retries_then_gives_up(
    valve: Seq<char>,
    command: JsonView,
    attempts: usize,
    best: Seq<(Seq<char>, BestActuatorView)>,
    topics: Seq<JsonView>,
    times: nat,
)
    requires
        !followed(topics, valve, command),
        value_of(best, valve) is Some,
        attempts + times <= MAX_ATTEMPTS,
    ensures
        checked_times(one_command(valve, command, attempts), best, topics, times) == one_command(
            valve,
            command,
            (attempts + times) as usize,
        ),
        attempts + times < MAX_ATTEMPTS ==> checked_commands(
            checked_times(one_command(valve, command, attempts), best, topics, times),
            best,
            topics,
        ) == seq![
            resent(
                valve,
                ValveDataView { desired_state: command, attempts: (attempts + times) as usize },
                value_of(best, valve).unwrap().actuator_mac_address,
            ),
        ],
        attempts + times == MAX_ATTEMPTS ==> checked_times(
            one_command(valve, command, attempts),
            best,
            topics,
            times + 1,
        ).len() == 0,
    decreases times,
{
    if times > 0 {
        lemma_valve_retries_then_gives_up(valve, command, attempts, best, topics, (times - 1) as nat);
        lemma_check_one(
            valve,
            ValveDataView { desired_state: command, attempts: (attempts + times - 1) as usize },
            best,
            topics,
        );
    }
    lemma_check_one(
        valve,
        ValveDataView { desired_state: command, attempts: (attempts + times) as usize },
        best,
        topics,
    );
    let queue = one_command(valve, command, attempts);
    assert(checked_times(queue, best, topics, times + 1) == checked_queue(
        checked_times(queue, best, topics, ((times + 1) - 1) as nat),
        best,
        topics,
    ));
}

/// The best actuator for a valve changes only for a stronger signal or
/// after more than 30 seconds: an observation that is neither leaves the
/// recorded one in place, and any other one is recorded.
pub proof fn lemma_best_actuator_rule(
    best: Seq<(Seq<char>, BestActuatorView)>,
    valve: Seq<char>,
    actuator: Seq<char>,
    rssi: i64,
    now: u64,
)
    ensures
        value_of(observed(best, valve, actuator, rssi, now), valve) == match value_of(best, valve) {
            Some(recorded) => if recorded.rssi < rssi || is_older_than(recorded.timestamp, now, BEST_ACTUATOR_SECS) {
                Some(BestActuatorView { actuator_mac_address: actuator, rssi, timestamp: now })
            } else {
                Some(recorded)
            },
            None => Some(BestActuatorView { actuator_mac_address: actuator, rssi, timestamp: now }),
        },
{
    lemma_put_value(
        best,
        valve,
        BestActuatorView { actuator_mac_address: actuator, rssi, timestamp: now },
        valve,
    );
}

/// The periodic check leaves in the queue only valves that were there, and
/// every valve standing once.
pub proof fn lemma_checked_keeps_distinct(
    queue: Seq<(Seq<char>, ValveDataView)>,
    best: Seq<(Seq<char>, BestActuatorView)>,
    topics: Seq<JsonView>,
)
    ensures
        forall|k: Seq<char>| has_key(checked_queue(queue, best, topics), k) ==> has_key(queue, k),
        distinct_keys(queue) ==> distinct_keys(checked_queue(queue, best, topics)),
    decreases queue.len(),
{
    if queue.len() > 0 {
        let head = queue.drop_last();
        let c = checked_queue(queue, best, topics);
        let ch = checked_queue(head, best, topics);
        lemma_checked_keeps_distinct(head, best, topics);
        assert forall|k: Seq<char>| has_key(c, k) implies has_key(queue, k) by {
            let i = choose|i: int| 0 <= i < c.len() && (#[trigger] c[i]).0 == k;
            if i < ch.len() {
                assert(c[i] == ch[i]);
                assert(ch[i].0 == k);
                assert(has_key(ch, k));
                assert(has_key(head, k));
                let j = choose|j: int| 0 <= j < head.len() && (#[trigger] head[j]).0 == k;
                assert(queue[j] == head[j]);
                assert(queue[j].0 == k);
            } else {
                assert(c[i].0 == queue[queue.len() - 1].0);
                assert(queue[queue.len() - 1].0 == k);
            }
        }
        if distinct_keys(queue) {
            assert forall|i: int, j: int| 0 <= i < j < head.len() implies (#[trigger] head[i]).0 != (
            #[trigger] head[j]).0 by {
                assert(head[i] == queue[i]);
                assert(head[j] == queue[j]);
            }
            assert forall|i: int, j: int| 0 <= i < j < c.len() implies (#[trigger] c[i]).0 != (#[trigger] c[j]).0 by {
                if j < ch.len() {
                    assert(c[i] == ch[i]);
                    assert(c[j] == ch[j]);
                } else {
                    assert(c[i] == ch[i]);
                    assert(has_key(ch, ch[i].0));
                    assert(has_key(head, ch[i].0));
                    let k = choose|k: int| 0 <= k < head.len() && (#[trigger] head[k]).0 == ch[i].0;
                    assert(queue[k] == head[k]);
                    assert(c[j].0 == queue[queue.len() - 1].0);
                }
            }
        }
    }
}

/// What the periodic check leaves of a queued command.
pub open spec fn checked_entry(
    valve: Seq<char>,
    data: ValveDataView,
    best: Seq<(Seq<char>, BestActuatorView)>,
    topics: Seq<JsonView>,
) -> Option<ValveDataView> {
    match verdict(valve, data, best, topics) {
        Verdict::Remove => None,
        Verdict::Keep => Some(data),
        Verdict::Resend(_) => Some(
            (ValveDataView { desired_state: data.desired_state, attempts: (data.attempts + 1) as usize }),
        ),
    }
}

proof fn lemma_value_of_last<X>(s: Seq<(Seq<char>, X)>, key: Seq<char>)
    requires
        s.len() > 0,
        distinct_keys(s),
    ensures
        s.last().0 == key ==> value_of(s, key) == Some(s.last().1) && value_of(s.drop_last(), key) is None,
        s.last().0 != key ==> value_of(s, key) == value_of(s.drop_last(), key),
{
    let head = s.drop_last();
    assert forall|j: int| 0 <= j < head.len() implies #[trigger] head[j] == s[j] by {}
    lemma_position_bounds(head, key, 0);
    lemma_position_bounds(s, key, 0);
    if s.last().0 == key {
        assert forall|j: int| 0 <= j < head.len() implies (#[trigger] head[j]).0 != key by {
            assert(s[j].0 != s[s.len() - 1].0);
        }
        lemma_position_none(head, key, 0);
        assert forall|j: int| 0 <= j < s.len() - 1 implies (#[trigger] s[j]).0 != key by {
            assert(s[j].0 != s[s.len() - 1].0);
        }
        lemma_position_first(s, key, 0, s.len() - 1);
    } else {
        match position(head, key, 0) {
            Some(i) => {
                assert forall|j: int| 0 <= j < i implies (#[trigger] s[j]).0 != key by {
                    assert(head[j].0 != key);
                }
                lemma_position_first(s, key, 0, i);
            },
            None => {
                assert forall|j: int| 0 <= j < s.len() implies (#[trigger] s[j]).0 != key by {
                    if j < head.len() {
                        assert(head[j].0 != key);
                    }
                }
                lemma_position_none(s, key, 0);
            },
        }
    }
}

proof fn lemma_value_of_pushed<X>(s: Seq<(Seq<char>, X)>, e: (Seq<char>, X), key: Seq<char>)
    ensures
        value_of(s, key) is Some ==> value_of(s.push(e), key) == value_of(s, key),
        value_of(s, key) is None && e.0 == key ==> value_of(s.push(e), key) == Some(e.1),
        value_of(s, key) is None && e.0 != key ==> value_of(s.push(e), key) is None,
{
    let p = s.push(e);
    assert forall|j: int| 0 <= j < s.len() implies #[trigger] p[j] == s[j] by {}
    lemma_position_bounds(s, key, 0);
    match position(s, key, 0) {
        Some(i) => {
            assert forall|j: int| 0 <= j < i implies (#[trigger] p[j]).0 != key by {
                assert(s[j].0 != key);
            }
            lemma_position_first(p, key, 0, i);
        },
        None => {
            assert forall|j: int| 0 <= j < s.len() implies (#[trigger] p[j]).0 != key by {
                assert(s[j].0 != key);
            }
            if e.0 == key {
                lemma_position_first(p, key, 0, s.len() as int);
            } else {
                lemma_position_none(p, key, 0);
            }
        },
    }
}

/// In a queue that holds every valve once, the periodic check does with the
/// command of each valve what its verdict says, whatever else the queue
/// holds: the command leaves exactly when its valve has followed or it has
/// had all its attempts, it stays with one attempt more where it is sent
/// again, and it stays as it is where no actuator is known. A valve without
/// a command has none afterwards.
pub proof fn lemma_checked_queue_by_valve(
    queue: Seq<(Seq<char>, ValveDataView)>,
    best: Seq<(Seq<char>, BestActuatorView)>,
    topics: Seq<JsonView>,
    valve: Seq<char>,
)
    requires
        distinct_keys(queue),
    ensures
        value_of(checked_queue(queue, best, topics), valve) == match value_of(queue, valve) {
            Some(data) => checked_entry(valve, data, best, topics),
            None => None,
        },
        value_of(queue, valve) matches Some(data) ==> (value_of(checked_queue(queue, best, topics), valve) is None
            <==> followed(topics, valve, data.desired_state) || data.attempts >= MAX_ATTEMPTS),
    decreases queue.len(),
{
    if queue.len() == 0 {
    } else {
        let head = queue.drop_last();
        let (v, d) = queue.last();
        let ch = checked_queue(head, best, topics);
        assert forall|i: int, j: int| 0 <= i < j < head.len() implies (#[trigger] head[i]).0 != (
        #[trigger] head[j]).0 by {
            assert(head[i] == queue[i]);
            assert(head[j] == queue[j]);
        }
        lemma_checked_queue_by_valve(head, best, topics, valve);
        lemma_value_of_last(queue, valve);
        match verdict(v, d, best, topics) {
            Verdict::Remove => {},
            Verdict::Keep => {
                lemma_value_of_pushed(ch, (v, d), valve);
            },
            Verdict::Resend(_) => {
                lemma_value_of_pushed(
                    ch,
                    (v, ValveDataView { desired_state: d.desired_state, attempts: (d.attempts + 1) as usize }),
                    valve,
                );
            },
        }
    }
}

/// Of a list of commands, those that are for a valve.
pub open spec fn commands_for(commands: Seq<ESP32CommandView>, valve: Seq<char>) -> Seq<ESP32CommandView>
    decreases commands.len(),
{
    if commands.len() == 0 {
        Seq::empty()
    } else if commands.last().mac_address == valve {
        commands_for(commands.drop_last(), valve).push(commands.last())
    } else {
        commands_for(commands.drop_last(), valve)
    }
}

/// In a queue that holds every valve once, the periodic check sends for each
/// valve at most one command: exactly one where the valve's command is to
/// be sent again, and then it is that command, addressed to the best
/// actuator of the valve and not to the valve.
pub proof fn lemma_checked_commands_by_valve(
    queue: Seq<(Seq<char>, ValveDataView)>,
    best: Seq<(Seq<char>, BestActuatorView)>,
    topics: Seq<JsonView>,
    valve: Seq<char>,
)
    requires
        distinct_keys(queue),
    ensures
        commands_for(checked_commands(queue, best, topics), valve) == match value_of(queue, valve) {
            Some(data) => match verdict(valve, data, best, topics) {
                Verdict::Resend(actuator) => seq![resent(valve, data, actuator)],
                _ => Seq::<ESP32CommandView>::empty(),
            },
            None => Seq::<ESP32CommandView>::empty(),
        },
    decreases queue.len(),
{
    if queue.len() == 0 {
    } else {
        let head = queue.drop_last();
        let (v, d) = queue.last();
        let ch = checked_commands(head, best, topics);
        assert forall|i: int, j: int| 0 <= i < j < head.len() implies (#[trigger] head[i]).0 != (
        #[trigger] head[j]).0 by {
            assert(head[i] == queue[i]);
            assert(head[j] == queue[j]);
        }
        lemma_checked_commands_by_valve(head, best, topics, valve);
        lemma_value_of_last(queue, valve);
        match verdict(v, d, best, topics) {
            Verdict::Resend(actuator) => {
                let c = ch.push(resent(v, d, actuator));
                assert(c.drop_last() =~= ch);
                assert(c.last() == resent(v, d, actuator));
                if v == valve {
                    assert(commands_for(c, valve) =~= seq![resent(valve, d, actuator)]);
                }
            },
            _ => {},
        }
    }
}

/// The attempts that the command of a valve still has.
pub open spec fn attempts_left(queue: Seq<(Seq<char>, ValveDataView)>, valve: Seq<char>) -> nat {
    match value_of(queue, valve) {
        Some(data) => if data.attempts < MAX_ATTEMPTS {
            (MAX_ATTEMPTS - data.attempts) as nat
        } else {
            0
        },
        None => 0,
    }
}

/// What the bridge knows at one periodic check: the best actuators and the
/// valve topics of the cache.
pub struct Tick {
    pub best: Seq<(Seq<char>, BestActuatorView)>,
    pub topics: Seq<JsonView>,
}

/// The queue after a run of periodic checks, each with what the bridge
/// knows then.
pub open spec fn queue_after(queue: Seq<(Seq<char>, ValveDataView)>, ticks: Seq<Tick>) -> Seq<
    (Seq<char>, ValveDataView),
>
    decreases ticks.len(),
{
    if ticks.len() == 0 {
        queue
    } else {
        checked_queue(queue_after(queue, ticks.drop_last()), ticks.last().best, ticks.last().topics)
    }
}

/// The number of commands that a run of periodic checks sends for a valve.
pub open spec fn sent_for(queue: Seq<(Seq<char>, ValveDataView)>, ticks: Seq<Tick>, valve: Seq<char>) -> nat
    decreases ticks.len(),
{
    if ticks.len() == 0 {
        0
    } else {
        sent_for(queue, ticks.drop_last(), valve) + commands_for(
            checked_commands(queue_after(queue, ticks.drop_last()), ticks.last().best, ticks.last().topics),
            valve,
        ).len()
    }
}

/// A command is never sent forever: over any run of periodic checks,
/// whatever the cache and the actuators are at each, the commands sent for
/// a valve are no more than the attempts that its command had left, and so
/// no more than all the attempts that a command gets.
pub proof fn lemma_attempts_run_out(queue: Seq<(Seq<char>, ValveDataView)>, ticks: Seq<Tick>, valve: Seq<char>)
    requires
        distinct_keys(queue),
    ensures
        distinct_keys(queue_after(queue, ticks)),
        sent_for(queue, ticks, valve) + attempts_left(queue_after(queue, ticks), valve) <= attempts_left(
            queue,
            valve,
        ),
        attempts_left(queue, valve) <= MAX_ATTEMPTS,
    decreases ticks.len(),
{
    if ticks.len() > 0 {
        let before = queue_after(queue, ticks.drop_last());
        let t = ticks.last();
        lemma_attempts_run_out(queue, ticks.drop_last(), valve);
        lemma_checked_keeps_distinct(before, t.best, t.topics);
        lemma_checked_queue_by_valve(before, t.best, t.topics, valve);
        lemma_checked_commands_by_valve(before, t.best, t.topics, valve);
    }
}

} // verus!
