//! The bridge's picture of the topic cache: the topics it knows, the reads
//! that the bridge makes of them, and the writes it has asked for.

use crate::command_parser::{
    dim_command, handle_dim_command, handle_rgbw_command, handle_shutter_command, handle_turn_command,
    handle_valve_command, rgbw_command, shutter_command, turn_command, valve_command, CommandError,
};
use crate::json::{list_view, Json, JsonView};
use crate::text::str_eq;
use vstd::prelude::*;
use vstd::string::*;

verus! {

/// A command that the cache brought, resolved to the device it is for.
#[derive(Debug)]
pub enum DHTCommand {
    ActuatorCommand(Json),
    ValveCommand(Json),
}

/// The model of a resolved command.
pub enum DHTCommandView {
    ActuatorCommand(JsonView),
    ValveCommand(JsonView),
}

impl View for DHTCommand {
    type V = DHTCommandView;

    open spec fn view(&self) -> DHTCommandView {
        match self {
            DHTCommand::ActuatorCommand(v) => DHTCommandView::ActuatorCommand(v@),
            DHTCommand::ValveCommand(v) => DHTCommandView::ValveCommand(v@),
        }
    }
}

/// An event of the cache.
#[derive(Debug)]
pub enum DomoEvent {
    /// A topic was written.
    PersistentData(Json),
    /// A message that is not kept came: a command.
    VolatileData(Json),
    /// Anything else.
    Other,
}

/// Why the cache gave no topic.
#[derive(Clone, Copy, Debug, PartialEq, Eq, Structural)]
pub enum DhtError {
    NotFound,
}

/// A write that the bridge has asked of the cache.
#[derive(Debug)]
pub struct TopicWrite {
    pub topic_name: String,
    pub topic_uuid: String,
    pub value: Json,
}

/// The model of a write.
pub struct TopicWriteView {
    pub topic_name: Seq<char>,
    pub topic_uuid: Seq<char>,
    pub value: JsonView,
}

impl View for TopicWrite {
    type V = TopicWriteView;

    open spec fn view(&self) -> TopicWriteView {
        TopicWriteView { topic_name: self.topic_name@, topic_uuid: self.topic_uuid@, value: self.value@ }
    }
}

/// The topics that the bridge knows, each an object with `topic_name`,
/// `topic_uuid` and `value`, and the writes asked for so far, oldest first.
#[derive(Debug)]
pub struct DHTManager {
    pub cache: Vec<Json>,
    pub written: Vec<TopicWrite>,
}

/// The model of the bridge's picture: the topics and the writes.
pub struct DhtView {
    pub cache: Seq<JsonView>,
    pub written: Seq<TopicWriteView>,
}

/// The views of a list of writes.
pub open spec fn writes_view(w: Seq<TopicWrite>) -> Seq<TopicWriteView> {
    Seq::new(w.len(), |i: int| w[i]@)
}

impl View for DHTManager {
    type V = DhtView;

    open spec fn view(&self) -> DhtView {
        DhtView { cache: list_view(self.cache@), written: writes_view(self.written@) }
    }
}

/// What a read looks for in a topic.
pub enum Probe<'a> {
    /// The topic of a kind with an identifier.
    Uuid(&'a str, &'a str),
    /// The topic of a kind whose value names a device address.
    Mac(&'a str, &'a str),
    /// The topic of a kind whose value holds a login, a password and a
    /// device address.
    Login(&'a str, &'a str, &'a str),
}

/// The model of a probe.
pub enum ProbeView {
    Uuid(Seq<char>, Seq<char>),
    Mac(Seq<char>, Seq<char>),
    Login(Seq<char>, Seq<char>, Seq<char>),
}

impl<'a> View for Probe<'a> {
    type V = ProbeView;

    open spec fn view(&self) -> ProbeView {
        match self {
            Probe::Uuid(n, u) => ProbeView::Uuid(n@, u@),
            Probe::Mac(n, m) => ProbeView::Mac(n@, m@),
            Probe::Login(n, u, p) => ProbeView::Login(n@, u@, p@),
        }
    }
}

/// The topic is of the kind.
pub open spec fn topic_named(topic: JsonView, name: Seq<char>) -> bool {
    topic.at("topic_name"@).as_text() == Some(name)
}

/// The topic is what the probe looks for.
pub open spec fn answers(topic: JsonView, probe: ProbeView) -> bool {
    let value = topic.at("value"@);
    match probe {
        ProbeView::Uuid(name, uuid) => topic_named(topic, name) && topic.at("topic_uuid"@).as_text() == Some(
            uuid,
        ),
        ProbeView::Mac(name, mac) => topic_named(topic, name) && value.at("mac_address"@).as_text() == Some(
            mac,
        ),
        ProbeView::Login(name, user, pass) => topic_named(topic, name) && value.at("user_login"@).as_text()
            == Some(user) && value.at("user_password"@).as_text() == Some(pass) && value.at(
            "mac_address"@,
        ).as_text() is Some,
    }
}

/// The probe for another kind of topic.
pub open spec fn of_kind(probe: ProbeView, kind: Seq<char>) -> ProbeView {
    match probe {
        ProbeView::Uuid(_, uuid) => ProbeView::Uuid(kind, uuid),
        ProbeView::Mac(_, mac) => ProbeView::Mac(kind, mac),
        ProbeView::Login(_, user, pass) => ProbeView::Login(kind, user, pass),
    }
}

/// The index of the first topic at or after `from` that answers the probe.
pub open spec fn first_answer(cache: Seq<JsonView>, probe: ProbeView, from: int) -> Option<int>
    decreases cache.len() - from,
{
    if from < 0 || from >= cache.len() {
        None
    } else if answers(cache[from], probe) {
        Some(from)
    } else {
        first_answer(cache, probe, from + 1)
    }
}

/// The first topic that answers the probe.
pub open spec fn found(cache: Seq<JsonView>, probe: ProbeView) -> Option<JsonView> {
    match first_answer(cache, probe, 0) {
        Some(i) => Some(cache[i]),
        None => None,
    }
}

/// The first topic that answers the probe for one of the kinds, the kinds
/// taken in their order from `k` on.
pub open spec fn found_among(cache: Seq<JsonView>, kinds: Seq<Seq<char>>, probe: ProbeView, k: int) -> Option<
    JsonView,
>
    decreases kinds.len() - k,
{
    if k < 0 || k >= kinds.len() {
        None
    } else {
        match found(cache, of_kind(probe, kinds[k])) {
            Some(t) => Some(t),
            None => found_among(cache, kinds, probe, k + 1),
        }
    }
}

/// The topics of a kind, in the order of the cache.
pub open spec fn named(cache: Seq<JsonView>, name: Seq<char>) -> Seq<JsonView>
    decreases cache.len(),
{
    if cache.len() == 0 {
        Seq::empty()
    } else if topic_named(cache.last(), name) {
        named(cache.drop_last(), name).push(cache.last())
    } else {
        named(cache.drop_last(), name)
    }
}

/// A topic as the cache holds it.
pub open spec fn topic_of(name: Seq<char>, uuid: Seq<char>, value: JsonView) -> JsonView {
    JsonView::Null.with("topic_name"@, JsonView::Text(name)).with("topic_uuid"@, JsonView::Text(uuid)).with(
        "value"@,
        value,
    )
}

/// The cache after a write: the topic stands in the place of the one with
/// its kind and identifier, or at the end where there was none.
pub open spec fn cache_written(cache: Seq<JsonView>, name: Seq<char>, uuid: Seq<char>, value: JsonView) -> Seq<
    JsonView,
> {
    match first_answer(cache, ProbeView::Uuid(name, uuid), 0) {
        Some(i) => cache.update(i, topic_of(name, uuid, value)),
        None => cache.push(topic_of(name, uuid, value)),
    }
}

/// The bridge's picture after a write.
pub open spec fn written(d: DhtView, name: Seq<char>, uuid: Seq<char>, value: JsonView) -> DhtView {
    DhtView {
        cache: cache_written(d.cache, name, uuid, value),
        written: d.written.push(TopicWriteView { topic_name: name, topic_uuid: uuid, value }),
    }
}

/// The kinds of topic that hold a device with an address, in the order in
/// which they are searched.
pub open spec fn device_kinds() -> Seq<Seq<char>> {
    seq![
        "shelly_1"@,
        "shelly_1pm"@,
        "shelly_1plus"@,
        "shelly_em"@,
        "shelly_1pm_plus"@,
        "shelly_2pm_plus"@,
        "shelly_25"@,
        "shelly_dimmer"@,
        "shelly_rgbw"@,
        "domo_ble_thermometer"@,
        "domo_ble_valve"@,
        "domo_ble_contact"@,
    ]
}

/// The kinds of the second-generation actuators, in the order in which
/// they are searched.
pub open spec fn plus_kinds() -> Seq<Seq<char>> {
    seq!["shelly_1plus"@, "shelly_1pm_plus"@, "shelly_2pm_plus"@]
}

/// The views of a list of string slices.
pub open spec fn strs_view(v: Seq<&'static str>) -> Seq<Seq<char>> {
    Seq::new(v.len(), |i: int| v[i]@)
}

fn device_kind_names() -> (r: Vec<&'static str>)
    ensures
        strs_view(r@) == device_kinds(),
{
    let mut v: Vec<&'static str> = Vec::new();
    v.push("shelly_1");
    v.push("shelly_1pm");
    v.push("shelly_1plus");
    v.push("shelly_em");
    v.push("shelly_1pm_plus");
    v.push("shelly_2pm_plus");
    v.push("shelly_25");
    v.push("shelly_dimmer");
    v.push("shelly_rgbw");
    v.push("domo_ble_thermometer");
    v.push("domo_ble_valve");
    v.push("domo_ble_contact");
    assert(strs_view(v@) =~= device_kinds());
    v
}

fn plus_kind_names() -> (r: Vec<&'static str>)
    ensures
        strs_view(r@) == plus_kinds(),
{
    let mut v: Vec<&'static str> = Vec::new();
    v.push("shelly_1plus");
    v.push("shelly_1pm_plus");
    v.push("shelly_2pm_plus");
    assert(strs_view(v@) =~= plus_kinds());
    v
}

/// What the cache answers to a login: the device's address and its kind.
pub open spec fn credentials_of(topic: JsonView) -> JsonView {
    JsonView::Null.with("mac_address"@, topic.at("value"@).at("mac_address"@)).with(
        "topic"@,
        topic.at("topic_name"@),
    )
}

/// The command that a volatile message of the cache holds. An actuator or
/// valve command that is resolved already is taken as it is; a logical
/// command is resolved through the cache.
pub open spec fn volatile_command(cache: Seq<JsonView>, message: JsonView) -> Result<
    DHTCommandView,
    CommandError,
> {
    let command = message.at("command"@);
    let kind = command.at("command_type"@).as_text();
    if kind == Some("shelly_actuator_command"@) && command.get("value"@) is Some {
        Ok(DHTCommandView::ActuatorCommand(command.at("value"@)))
    } else if kind == Some("radiator_valve_command"@) && command.get("value"@) is Some {
        Ok(DHTCommandView::ValveCommand(command.at("value"@)))
    } else if kind == Some("turn_command"@) {
        turn_command(cache, command)
    } else if kind == Some("valve_command"@) {
        valve_command(cache, command)
    } else if kind == Some("dim_command"@) {
        dim_command(cache, command)
    } else if kind == Some("rgbw_command"@) {
        rgbw_command(cache, command)
    } else if kind == Some("shutter_command"@) {
        shutter_command(cache, command)
    } else {
        Err(CommandError::NotAbleToParseMessage)
    }
}

fn is_text(j: &Json, s: &str) -> (r: bool)
    ensures
        r == (j@.as_text() == Some(s@)),
{
    match j.as_str() {
        Some(t) => str_eq(t, s),
        None => false,
    }
}

impl DHTManager {
    /// A picture of an empty cache.
    pub fn new() -> (r: DHTManager)
        ensures
            r@.cache.len() == 0,
            r@.written.len() == 0,
    {
        DHTManager { cache: Vec::new(), written: Vec::new() }
    }

    fn matches(topic: &Json, probe: &Probe) -> (r: bool)
        ensures
            r == answers(topic@, probe@),
    {
        let kind = topic.at("topic_name");
        let value = topic.at("value");
        match probe {
            Probe::Uuid(name, uuid) => is_text(&kind, name) && is_text(&topic.at("topic_uuid"), uuid),
            Probe::Mac(name, mac) => is_text(&kind, name) && is_text(&value.at("mac_address"), mac),
            Probe::Login(name, user, pass) => is_text(&kind, name) && is_text(&value.at("user_login"), user)
                && is_text(&value.at("user_password"), pass) && value.at("mac_address").as_str().is_some(),
        }
    }

    fn search(&self, probe: &Probe) -> (r: Option<usize>)
        ensures
            match r {
                Some(i) => i < self.cache.len() && first_answer(self@.cache, probe@, 0) == Some(i as int),
                None => first_answer(self@.cache, probe@, 0) is None,
            },
    {
        let mut i: usize = 0;
        while i < self.cache.len()
            invariant
                i <= self.cache.len(),
                first_answer(self@.cache, probe@, 0) == first_answer(self@.cache, probe@, i as int),
            decreases self.cache.len() - i,
        {
            if DHTManager::matches(&self.cache[i], probe) {
                return Some(i);
            }
            i += 1;
        }
        None
    }

    fn find(&self, probe: &Probe) -> (r: Option<Json>)
        ensures
            match r {
                Some(t) => found(self@.cache, probe@) == Some(t@),
                None => found(self@.cache, probe@) is None,
            },
    {
        match self.search(probe) {
            Some(i) => Some(self.cache[i].duplicate()),
            None => None,
        }
    }

    /// The topics of a kind.
    pub fn get_topic_name(&self, topic_name: &str) -> (r: Vec<Json>)
        ensures
            list_view(r@) == named(self@.cache, topic_name@),
    {
        let mut out: Vec<Json> = Vec::new();
        let ghost cache = self@.cache;
        let mut i: usize = 0;
        assert(cache.take(0) =~= Seq::empty());
        while i < self.cache.len()
            invariant
                i <= self.cache.len(),
                cache == self@.cache,
                list_view(out@) == named(cache.take(i as int), topic_name@),
            decreases self.cache.len() - i,
        {
            let ghost before = list_view(out@);
            proof {
                assert(cache.take(i + 1).drop_last() =~= cache.take(i as int));
                assert(cache.take(i + 1).last() == self.cache@[i as int]@);
            }
            if is_text(&self.cache[i].at("topic_name"), topic_name) {
                out.push(self.cache[i].duplicate());
                assert(list_view(out@) =~= before.push(self.cache@[i as int]@));
            }
            i += 1;
        }
        assert(cache.take(i as int) =~= cache);
        out
    }

    /// The topic of a kind with an identifier.
    pub fn get_topic_uuid(&self, topic_name: &str, topic_uuid: &str) -> (r: Result<Json, DhtError>)
        ensures
            match r {
                Ok(t) => found(self@.cache, ProbeView::Uuid(topic_name@, topic_uuid@)) == Some(t@),
                Err(_) => found(self@.cache, ProbeView::Uuid(topic_name@, topic_uuid@)) is None,
            },
    {
        match self.find(&Probe::Uuid(topic_name, topic_uuid)) {
            Some(t) => Ok(t),
            None => Err(DhtError::NotFound),
        }
    }

    fn find_among(&self, kinds: &Vec<&'static str>, probe: &Probe) -> (r: Option<Json>)
        ensures
            match r {
                Some(t) => found_among(self@.cache, strs_view(kinds@), probe@, 0) == Some(t@),
                None => found_among(self@.cache, strs_view(kinds@), probe@, 0) is None,
            },
    {
        let mut k: usize = 0;
        while k < kinds.len()
            invariant
                k <= kinds.len(),
                found_among(self@.cache, strs_view(kinds@), probe@, 0) == found_among(
                    self@.cache,
                    strs_view(kinds@),
                    probe@,
                    k as int,
                ),
            decreases kinds.len() - k,
        {
            let kind: &str = kinds[k];
            assert(strs_view(kinds@)[k as int] == kind@);
            let hit = match probe {
                Probe::Uuid(_, uuid) => self.find(&Probe::Uuid(kind, uuid)),
                Probe::Mac(_, mac) => self.find(&Probe::Mac(kind, mac)),
                Probe::Login(_, user, pass) => self.find(&Probe::Login(kind, user, pass)),
            };
            match hit {
                Some(t) => {
                    return Some(t);
                },
                None => {},
            }
            k += 1;
        }
        None
    }

    /// The address and the kind of the second-generation actuator that
    /// logs in with a user name and a password.
    pub fn get_auth_cred(&self, user: &str, password: &str) -> (r: Result<Json, DhtError>)
        ensures
            match found_among(self@.cache, plus_kinds(), ProbeView::Login(Seq::empty(), user@, password@), 0) {
                Some(t) => r matches Ok(c) && c@ == credentials_of(t),
                None => r is Err,
            },
    {
        let kinds = plus_kind_names();
        proof {
            reveal_strlit("");
            assert(""@ =~= Seq::<char>::empty());
        }
        match self.find_among(&kinds, &Probe::Login("", user, password)) {
            Some(t) => {
                let mut c = Json::Null;
                c.set("mac_address", t.at_in("value", "mac_address"));
                c.set("topic", t.at("topic_name"));
                Ok(c)
            },
            None => Err(DhtError::NotFound),
        }
    }

    /// The topic of a kind whose value names a device address.
    pub fn get_topic(&self, topic_name: &str, mac_address: &str) -> (r: Result<Json, DhtError>)
        ensures
            match r {
                Ok(t) => found(self@.cache, ProbeView::Mac(topic_name@, mac_address@)) == Some(t@),
                Err(_) => found(self@.cache, ProbeView::Mac(topic_name@, mac_address@)) is None,
            },
    {
        match self.find(&Probe::Mac(topic_name, mac_address)) {
            Some(t) => Ok(t),
            None => Err(DhtError::NotFound),
        }
    }

    /// The topic of the device with an address, of whatever kind.
    pub fn get_actuator_from_mac_address(&self, mac_address_req: &str) -> (r: Result<Json, DhtError>)
        ensures
            match r {
                Ok(t) => found_among(
                    self@.cache,
                    device_kinds(),
                    ProbeView::Mac(Seq::empty(), mac_address_req@),
                    0,
                ) == Some(t@),
                Err(_) => found_among(
                    self@.cache,
                    device_kinds(),
                    ProbeView::Mac(Seq::empty(), mac_address_req@),
                    0,
                ) is None,
            },
    {
        let kinds = device_kind_names();
        proof {
            reveal_strlit("");
            assert(""@ =~= Seq::<char>::empty());
        }
        match self.find_among(&kinds, &Probe::Mac("", mac_address_req)) {
            Some(t) => Ok(t),
            None => Err(DhtError::NotFound),
        }
    }

    /// Writes the value of a topic: into the picture of the cache, and onto
    /// the list of writes asked for.
    pub fn write_topic(&mut self, topic_name: &str, topic_uuid: &str, value: &Json)
        ensures
            final(self)@ == written(old(self)@, topic_name@, topic_uuid@, value@),
    {
        let mut topic = Json::Null;
        topic.set("topic_name", Json::text(topic_name));
        topic.set("topic_uuid", Json::text(topic_uuid));
        topic.set("value", value.duplicate());
        match self.search(&Probe::Uuid(topic_name, topic_uuid)) {
            Some(i) => {
                self.cache.set(i, topic);
            },
            None => {
                self.cache.push(topic);
            },
        }
        self.written.push(
            TopicWrite {
                topic_name: String::from_str(topic_name),
                topic_uuid: String::from_str(topic_uuid),
                value: value.duplicate(),
            },
        );
        assert(list_view(self.cache@) =~= cache_written(old(self)@.cache, topic_name@, topic_uuid@, value@));
        assert(writes_view(self.written@) =~= old(self)@.written.push(
            TopicWriteView { topic_name: topic_name@, topic_uuid: topic_uuid@, value: value@ },
        ));
    }

    /// The command that an event of the cache brings: that of a volatile
    /// message. Any other event brings none.
    pub fn wait_dht_messages(&self, event: &DomoEvent) -> (r: Result<DHTCommand, CommandError>)
        ensures
            match event {
                DomoEvent::VolatileData(m) => match r {
                    Ok(c) => volatile_command(self@.cache, m@) == Ok::<DHTCommandView, CommandError>(c@),
                    Err(e) => volatile_command(self@.cache, m@) == Err::<DHTCommandView, CommandError>(e),
                },
                _ => r matches Err(e) && e == CommandError::NotVolatile,
            },
    {
        match event {
            DomoEvent::VolatileData(m) => self.handle_volatile_command(m),
            _ => Err(CommandError::NotVolatile),
        }
    }

    /// Resolves the command of a volatile message.
    pub fn handle_volatile_command(&self, command: &Json) -> (r: Result<DHTCommand, CommandError>)
        ensures
            match r {
                Ok(c) => volatile_command(self@.cache, command@) == Ok::<DHTCommandView, CommandError>(c@),
                Err(e) => volatile_command(self@.cache, command@) == Err::<DHTCommandView, CommandError>(e),
            },
    {
        let inner = command.at("command");
        let kind = inner.at("command_type");
        if is_text(&kind, "shelly_actuator_command") && inner.get("value").is_some() {
            return Ok(DHTCommand::ActuatorCommand(inner.at("value")));
        }
        if is_text(&kind, "radiator_valve_command") && inner.get("value").is_some() {
            return Ok(DHTCommand::ValveCommand(inner.at("value")));
        }
        if is_text(&kind, "turn_command") {
            return handle_turn_command(self, &inner);
        }
        if is_text(&kind, "valve_command") {
            return handle_valve_command(self, &inner);
        }
        if is_text(&kind, "dim_command") {
            return handle_dim_command(self, &inner);
        }
        if is_text(&kind, "rgbw_command") {
            return handle_rgbw_command(self, &inner);
        }
        if is_text(&kind, "shutter_command") {
            return handle_shutter_command(self, &inner);
        }
        Err(CommandError::NotAbleToParseMessage)
    }
}

proof fn lemma_first_answer_bounds(cache: Seq<JsonView>, probe: ProbeView, from: int)
    requires
        0 <= from,
    ensures
        match first_answer(cache, probe, from) {
            Some(i) => from <= i < cache.len() && answers(cache[i], probe) && forall|j: int|
                from <= j < i ==> !answers(#[trigger] cache[j], probe),
            None => forall|j: int| from <= j < cache.len() ==> !answers(#[trigger] cache[j], probe),
        },
    decreases cache.len() - from,
{
    if from < cache.len() && !answers(cache[from], probe) {
        lemma_first_answer_bounds(cache, probe, from + 1);
    }
}

proof fn lemma_first_answer_is(cache: Seq<JsonView>, probe: ProbeView, from: int, i: int)
    requires
        0 <= from <= i < cache.len(),
        answers(cache[i], probe),
        forall|j: int| from <= j < i ==> !answers(#[trigger] cache[j], probe),
    ensures
        first_answer(cache, probe, from) == Some(i),
    decreases i - from,
{
    if from < i {
        lemma_first_answer_is(cache, probe, from + 1, i);
    }
}

/// The names of the three fields of a topic are three different texts.
pub proof fn lemma_topic_fields_differ()
    ensures
        "topic_name"@ != "topic_uuid"@,
        "topic_name"@ != "value"@,
        "topic_uuid"@ != "value"@,
{
    reveal_strlit("topic_name");
    reveal_strlit("topic_uuid");
    reveal_strlit("value");
    assert("topic_name"@[6] != "topic_uuid"@[6]);
    assert("topic_name"@.len() != "value"@.len());
    assert("topic_uuid"@.len() != "value"@.len());
}

/// What was written is what is read: after a write the cache holds, under
/// the kind and the identifier, the topic with the value written.
pub proof fn lemma_read_after_write(cache: Seq<JsonView>, name: Seq<char>, uuid: Seq<char>, value: JsonView)
    ensures
        found(cache_written(cache, name, uuid, value), ProbeView::Uuid(name, uuid)) == Some(
            topic_of(name, uuid, value),
        ),
        topic_of(name, uuid, value).at("value"@) == value,
{
    lemma_topic_fields_differ();
    let probe = ProbeView::Uuid(name, uuid);
    let topic = topic_of(name, uuid, value);
    let after = cache_written(cache, name, uuid, value);
    assert(answers(topic, probe));
    lemma_first_answer_bounds(cache, probe, 0);
    match first_answer(cache, probe, 0) {
        Some(i) => {
            assert forall|j: int| 0 <= j < i implies !answers(#[trigger] after[j], probe) by {
                assert(after[j] == cache[j]);
            }
            lemma_first_answer_is(after, probe, 0, i);
        },
        None => {
            assert forall|j: int| 0 <= j < cache.len() implies !answers(#[trigger] after[j], probe) by {
                assert(after[j] == cache[j]);
            }
            lemma_first_answer_is(after, probe, 0, cache.len() as int);
        },
    }
}

/// A write is idempotent: writing the same value again leaves the cache as
/// the first write left it.
pub proof fn lemma_write_twice(cache: Seq<JsonView>, name: Seq<char>, uuid: Seq<char>, value: JsonView)
    ensures
        cache_written(cache_written(cache, name, uuid, value), name, uuid, value) == cache_written(
            cache,
            name,
            uuid,
            value,
        ),
{
    lemma_read_after_write(cache, name, uuid, value);
    let once = cache_written(cache, name, uuid, value);
    lemma_first_answer_bounds(once, ProbeView::Uuid(name, uuid), 0);
    assert(cache_written(once, name, uuid, value) =~= once);
}

} // verus!
