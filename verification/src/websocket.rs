//! Real-time updates over WebSocket: per-connection rate limiting and
//! timeouts, subscriptions, client commands and their replies, the decisions
//! of a connection's event loop, and batching of outgoing updates.
//!
//! Times are nanoseconds on a monotonic clock chosen by the caller. Regions
//! are a type parameter: whether a point lies in a region is decided by the
//! caller, who passes the answers in.
use vstd::prelude::*;
use crate::text::{decimal, decimal_string, str_eq, string_from_chars, chars_of};

verus! {

/// Messages a connection may send per one-second window.
pub const MAX_MESSAGES_PER_SECOND: u32 = 100;
/// Seconds between heartbeats.
pub const HEARTBEAT_INTERVAL: u64 = 30;
/// Seconds of inactivity after which a connection is dropped.
pub const CONNECTION_TIMEOUT: u64 = 120;

/// Nanoseconds in a second.
pub const NANOS_PER_SECOND: u64 = 1_000_000_000;

/// Kinds of real-time update.
#[derive(PartialEq, Eq, Structural, Clone, Copy, Debug)]
pub enum UpdateType {
    Reading,
    Anomaly,
    Alert,
    FacilityStatus,
    SystemStatus,
    BatchUpdate,
}

/// Time elapsed from `earlier` to `now`, zero when `now` is earlier.
pub open spec fn elapsed(now: u64, earlier: u64) -> int {
    if now >= earlier { now - earlier } else { 0 }
}

/// The rate limiter's decision and its next state `(allowed, count, window_start)`.
pub open spec fn rate_step(count: u32, window_start: u64, now: u64) -> (bool, u32, u64) {
    let (c, w) = if elapsed(now, window_start) >= NANOS_PER_SECOND {
        (0u32, now)
    } else {
        (count, window_start)
    };
    if c >= MAX_MESSAGES_PER_SECOND {
        (false, c, w)
    } else {
        (true, (c + 1) as u32, w)
    }
}

/// How many of the messages at `times` the limiter lets through, from state
/// `(count, window_start)`.
pub open spec fn accepted(count: u32, window_start: u64, times: Seq<u64>) -> nat
    decreases times.len(),
{
    if times.len() == 0 {
        0
    } else {
        let (ok, c, w) = rate_step(count, window_start, times[0]);
        accepted(c, w, times.drop_first()) + if ok { 1nat } else { 0nat }
    }
}

/// Bookkeeping for one WebSocket connection.
pub struct ConnectionMeta<R> {
    pub id: String,
    pub connected_at: u64,
    pub last_activity: u64,
    pub message_count: u32,
    pub last_message_time: u64,
    pub subscribed_sensors: Vec<String>,
    pub subscribed_regions: Vec<R>,
    pub client_info: Option<String>,
}

/// The sensor ids of a subscription list.
pub open spec fn sensor_views(v: Seq<String>) -> Seq<Seq<char>> {
    v.map_values(|s: String| s@)
}

/// `subs` after subscribing to `s`: unchanged when already there, else `s` appended.
pub open spec fn subscribe_one(subs: Seq<Seq<char>>, s: Seq<char>) -> Seq<Seq<char>> {
    if subs.contains(s) { subs } else { subs.push(s) }
}

/// `subs` after subscribing to each of `ids` in turn.
pub open spec fn subscribe_all(subs: Seq<Seq<char>>, ids: Seq<Seq<char>>) -> Seq<Seq<char>>
    decreases ids.len(),
{
    if ids.len() == 0 {
        subs
    } else {
        subscribe_all(subscribe_one(subs, ids[0]), ids.drop_first())
    }
}

/// `subs` without `s`.
pub open spec fn unsubscribe_one(subs: Seq<Seq<char>>, s: Seq<char>) -> Seq<Seq<char>> {
    subs.filter(|x: Seq<char>| x != s)
}

impl<R> ConnectionMeta<R> {
    /// A fresh connection opened at `now`, with no subscriptions.
    pub fn new(id: String, now: u64) -> (c: ConnectionMeta<R>)
        ensures
            c.id == id,
            c.connected_at == now && c.last_activity == now && c.last_message_time == now,
            c.message_count == 0,
            c.subscribed_sensors@.len() == 0 && c.subscribed_regions@.len() == 0,
            c.client_info is None,
    {
        ConnectionMeta {
            id,
            connected_at: now,
            last_activity: now,
            message_count: 0,
            last_message_time: now,
            subscribed_sensors: Vec::new(),
            subscribed_regions: Vec::new(),
            client_info: None,
        }
    }

    /// Counts one incoming message at `now`: after a second since the window
    /// opened a new window starts; the message is refused when the window
    /// already holds the maximum.
    pub fn check_rate_limit(&mut self, now: u64) -> (allowed: bool)
        ensures
            (allowed, final(self).message_count, final(self).last_message_time)
                == rate_step(old(self).message_count, old(self).last_message_time, now),
            final(self).id == old(self).id,
            final(self).connected_at == old(self).connected_at,
            final(self).last_activity == old(self).last_activity,
            final(self).subscribed_sensors == old(self).subscribed_sensors,
            final(self).subscribed_regions == old(self).subscribed_regions,
            final(self).client_info == old(self).client_info,
    {
        let since = if now >= self.last_message_time { now - self.last_message_time } else { 0 };
        if since >= NANOS_PER_SECOND {
            self.message_count = 0;
            self.last_message_time = now;
        }
        if self.message_count >= MAX_MESSAGES_PER_SECOND {
            return false;
        }
        self.message_count = self.message_count + 1;
        true
    }

    /// Records activity at `now`.
    pub fn touch(&mut self, now: u64)
        ensures
            *final(self) == (ConnectionMeta { last_activity: now, ..*old(self) }),
    {
        self.last_activity = now;
    }

    /// Whether more than the timeout has passed since the last activity.
    pub fn is_timed_out(&self, now: u64) -> (r: bool)
        ensures
            r == (elapsed(now, self.last_activity) > CONNECTION_TIMEOUT * NANOS_PER_SECOND),
    {
        let since = if now >= self.last_activity { now - self.last_activity } else { 0 };
        since > CONNECTION_TIMEOUT * NANOS_PER_SECOND
    }

    /// Whether the connection subscribes to `sensor_id`.
    pub fn is_subscribed(&self, sensor_id: &str) -> (r: bool)
        ensures
            r == sensor_views(self.subscribed_sensors@).contains(sensor_id@),
    {
        let mut i: usize = 0;
        while i < self.subscribed_sensors.len()
            invariant
                i <= self.subscribed_sensors@.len(),
                forall|k: int| 0 <= k < i ==> self.subscribed_sensors@[k]@ != sensor_id@,
            decreases self.subscribed_sensors.len() - i,
        {
            if str_eq(self.subscribed_sensors[i].as_str(), sensor_id) {
                assert(sensor_views(self.subscribed_sensors@)[i as int] == sensor_id@);
                return true;
            }
            i = i + 1;
        }
        proof {
            let v = sensor_views(self.subscribed_sensors@);
            if v.contains(sensor_id@) {
                let k = choose|k: int| 0 <= k < v.len() && v[k] == sensor_id@;
                assert(self.subscribed_sensors@[k]@ == sensor_id@);
            }
        }
        false
    }

    /// Subscribes to a sensor, once.
    pub fn subscribe_sensor(&mut self, sensor_id: String)
        ensures
            sensor_views(final(self).subscribed_sensors@)
                == subscribe_one(sensor_views(old(self).subscribed_sensors@), sensor_id@),
            final(self).subscribed_regions == old(self).subscribed_regions,
            final(self).id == old(self).id,
            final(self).last_activity == old(self).last_activity,
            final(self).message_count == old(self).message_count,
            final(self).last_message_time == old(self).last_message_time,
    {
        if !self.is_subscribed(sensor_id.as_str()) {
            let ghost before = self.subscribed_sensors@;
            let ghost s = sensor_id@;
            self.subscribed_sensors.push(sensor_id);
            assert(sensor_views(self.subscribed_sensors@) =~= sensor_views(before).push(s));
        }
    }

    /// Subscribes to each sensor of the list, in order, once each.
    pub fn subscribe_sensors(&mut self, sensor_ids: &Vec<String>)
        ensures
            sensor_views(final(self).subscribed_sensors@)
                == subscribe_all(sensor_views(old(self).subscribed_sensors@), sensor_views(sensor_ids@)),
            final(self).subscribed_regions == old(self).subscribed_regions,
            final(self).id == old(self).id,
            final(self).last_activity == old(self).last_activity,
            final(self).message_count == old(self).message_count,
            final(self).last_message_time == old(self).last_message_time,
    {
        let ghost ids = sensor_views(sensor_ids@);
        assert(ids.subrange(0, ids.len() as int) =~= ids);
        let mut i: usize = 0;
        while i < sensor_ids.len()
            invariant
                i <= sensor_ids@.len(),
                ids == sensor_views(sensor_ids@),
                subscribe_all(sensor_views(old(self).subscribed_sensors@), ids)
                    == subscribe_all(sensor_views(self.subscribed_sensors@), ids.subrange(i as int, ids.len() as int)),
                self.subscribed_regions == old(self).subscribed_regions,
                self.id == old(self).id,
                self.last_activity == old(self).last_activity,
                self.message_count == old(self).message_count,
                self.last_message_time == old(self).last_message_time,
            decreases sensor_ids.len() - i,
        {
            let ghost rest = ids.subrange(i as int, ids.len() as int);
            assert(rest[0] == sensor_ids@[i as int]@);
            assert(rest.drop_first() =~= ids.subrange(i + 1, ids.len() as int));
            let s = sensor_ids[i].clone();
            self.subscribe_sensor(s);
            i = i + 1;
        }
        assert(ids.subrange(ids.len() as int, ids.len() as int) =~= Seq::<Seq<char>>::empty());
    }

    /// Drops every subscription to `sensor_id`.
    pub fn unsubscribe_sensor(&mut self, sensor_id: &str)
        ensures
            sensor_views(final(self).subscribed_sensors@)
                == unsubscribe_one(sensor_views(old(self).subscribed_sensors@), sensor_id@),
            final(self).subscribed_regions == old(self).subscribed_regions,
            final(self).id == old(self).id,
            final(self).last_activity == old(self).last_activity,
            final(self).message_count == old(self).message_count,
            final(self).last_message_time == old(self).last_message_time,
    {
        let mut kept: Vec<String> = Vec::new();
        let mut old_subs: Vec<String> = Vec::new();
        std::mem::swap(&mut old_subs, &mut self.subscribed_sensors);
        let ghost v0 = sensor_views(old_subs@);
        let ghost target = sensor_id@;
        let n = old_subs.len();
        let mut i: usize = 0;
        while i < n
            invariant
                n == old_subs@.len(),
                v0 == sensor_views(old_subs@),
                i <= n,
                sensor_views(kept@) == unsubscribe_one(v0.subrange(0, i as int), target),
                target == sensor_id@,
            decreases n - i,
        {
            let ghost k0 = kept@;
            proof {
                reveal(Seq::filter);
                assert(v0.subrange(0, i + 1).drop_last() =~= v0.subrange(0, i as int));
                assert(v0.subrange(0, i + 1).last() == old_subs@[i as int]@);
            }
            if !str_eq(old_subs[i].as_str(), sensor_id) {
                kept.push(old_subs[i].clone());
                assert(sensor_views(kept@) =~= sensor_views(k0).push(old_subs@[i as int]@));
            }
            i = i + 1;
        }
        assert(v0.subrange(0, n as int) =~= v0);
        self.subscribed_sensors = kept;
    }
}

/// Subscribing twice to a sensor is the same as subscribing once.
pub proof fn law_subscribe_idempotent(subs: Seq<Seq<char>>, s: Seq<char>)
    ensures
        subscribe_one(subscribe_one(subs, s), s) == subscribe_one(subs, s),
        subscribe_one(subs, s).contains(s),
{
    if !subs.contains(s) {
        assert(subs.push(s)[subs.len() as int] == s);
    }
}

/// After unsubscribing from a sensor it is no longer subscribed, and every
/// other subscription stays.
pub proof fn law_unsubscribe_removes(subs: Seq<Seq<char>>, s: Seq<char>, other: Seq<char>)
    requires
        other != s,
    ensures
        !unsubscribe_one(subs, s).contains(s),
        subs.contains(other) ==> unsubscribe_one(subs, s).contains(other),
{
    let f = |x: Seq<char>| x != s;
    if unsubscribe_one(subs, s).contains(s) {
        let k = choose|k: int| 0 <= k < subs.filter(f).len() && subs.filter(f)[k] == s;
        subs.lemma_filter_pred(f, k);
    }
    if subs.contains(other) {
        let k = choose|k: int| 0 <= k < subs.len() && subs[k] == other;
        subs.lemma_filter_contains(f, k);
    }
}

proof fn lemma_rate_window(count: u32, window_start: u64, times: Seq<u64>)
    requires
        count <= MAX_MESSAGES_PER_SECOND,
        forall|i: int| 0 <= i < times.len() ==> window_start <= #[trigger] times[i] && times[i] - window_start < NANOS_PER_SECOND,
    ensures
        accepted(count, window_start, times) <= MAX_MESSAGES_PER_SECOND - count,
    decreases times.len(),
{
    if times.len() > 0 {
        let (ok, c, w) = rate_step(count, window_start, times[0]);
        assert(w == window_start && (ok ==> c == count + 1) && (!ok ==> c == count));
        assert forall|i: int| 0 <= i < times.drop_first().len() implies w <= #[trigger] times.drop_first()[i]
            && times.drop_first()[i] - w < NANOS_PER_SECOND by {
            assert(times.drop_first()[i] == times[i + 1]);
        }
        lemma_rate_window(c, w, times.drop_first());
    }
}

/// Within one second of a window's start, a connection gets at most
/// `MAX_MESSAGES_PER_SECOND` messages through, however many it sends.
pub proof fn law_rate_limit_per_window(window_start: u64, times: Seq<u64>)
    requires
        forall|i: int| 0 <= i < times.len() ==> window_start <= #[trigger] times[i] && times[i] - window_start < NANOS_PER_SECOND,
    ensures
        accepted(0, window_start, times) <= MAX_MESSAGES_PER_SECOND,
{
    lemma_rate_window(0, window_start, times);
}

// ---------------------------------------------------------------------------
// Client commands
// ---------------------------------------------------------------------------

/// A command a client sends as JSON text.
pub struct ClientCommand<R> {
    pub action: String,
    pub sensor_id: Option<String>,
    pub sensor_ids: Option<Vec<String>>,
    pub region: Option<R>,
    pub regions: Option<Vec<R>>,
    pub client_info: Option<String>,
}

/// What to send back to a client.
pub enum CommandReply {
    /// This JSON text.
    Text(String),
    /// A JSON object of type `subscriptions` listing the sensors and counting
    /// sensors and regions.
    Subscriptions { sensors: Vec<String>, region_count: usize },
    /// A JSON object of type `status` with the connection count and the server time.
    Status { connections: u64 },
    /// Nothing.
    Nothing,
}

/// The strings `a`, `b` and `c` one after the other.
fn concat3(a: &str, b: &str, c: &str) -> (s: String)
    ensures
        s@ == a@ + b@ + c@,
{
    let mut v = chars_of(a);
    let vb = chars_of(b);
    let vc = chars_of(c);
    let ghost head = v@;
    let mut i: usize = 0;
    while i < vb.len()
        invariant
            i <= vb@.len(),
            v@ == head + vb@.take(i as int),
        decreases vb.len() - i,
    {
        v.push(vb[i]);
        i = i + 1;
        assert(v@ =~= head + vb@.take(i as int));
    }
    assert(vb@.take(vb@.len() as int) =~= vb@);
    let ghost mid = v@;
    let mut i: usize = 0;
    while i < vc.len()
        invariant
            i <= vc@.len(),
            v@ == mid + vc@.take(i as int),
        decreases vc.len() - i,
    {
        v.push(vc[i]);
        i = i + 1;
        assert(v@ =~= mid + vc@.take(i as int));
    }
    assert(vc@.take(vc@.len() as int) =~= vc@);
    string_from_chars(&v)
}

/// The command names a client may send.
pub open spec fn known_action(a: Seq<char>) -> bool {
    a == "subscribe_sensor"@ || a == "subscribe_sensors"@ || a == "subscribe_region"@
        || a == "unsubscribe_sensor"@ || a == "get_subscriptions"@ || a == "ping"@ || a == "get_status"@
}

/// Whether a reply is exactly this text.
pub open spec fn is_text(r: CommandReply, t: Seq<char>) -> bool {
    r matches CommandReply::Text(s) && s@ == t
}

/// What a client command does: `before` and `after` are the connection's
/// bookkeeping around it and `reply` what it answers. `connections` is the
/// number of open connections and `wall_ms` the wall-clock time.
pub open spec fn command_effect<R>(before: ConnectionMeta<R>, cmd: ClientCommand<R>, connections: u64, wall_ms: i64, after: ConnectionMeta<R>, reply: CommandReply) -> bool {
    &&& after.id == before.id
    &&& after.last_activity == before.last_activity
    &&& after.message_count == before.message_count
    &&& after.last_message_time == before.last_message_time
    &&& cmd.action@ == "subscribe_sensor"@ ==> match cmd.sensor_id {
        Some(id) => sensor_views(after.subscribed_sensors@) == subscribe_one(sensor_views(before.subscribed_sensors@), id@)
            && after.subscribed_regions == before.subscribed_regions
            && is_text(reply, "{\"type\":\"subscribed\",\"sensor_id\":\""@ + id@ + "\",\"status\":\"ok\"}"@),
        None => after == before && reply is Nothing,
    }
    &&& cmd.action@ == "subscribe_sensors"@ ==> match cmd.sensor_ids {
        Some(ids) => sensor_views(after.subscribed_sensors@) == subscribe_all(sensor_views(before.subscribed_sensors@), sensor_views(ids@))
            && after.subscribed_regions == before.subscribed_regions
            && is_text(reply, "{\"type\":\"subscribed\",\"sensor_count\":"@ + decimal(ids@.len()) + ",\"status\":\"ok\"}"@),
        None => after == before && reply is Nothing,
    }
    &&& cmd.action@ == "subscribe_region"@ ==> match cmd.region {
        Some(r) => after.subscribed_regions@ == before.subscribed_regions@.push(r)
            && after.subscribed_sensors == before.subscribed_sensors
            && is_text(reply, "{\"type\":\"subscribed\",\"region\":\"active\",\"status\":\"ok\"}"@),
        None => after == before && reply is Nothing,
    }
    &&& cmd.action@ == "unsubscribe_sensor"@ ==> match cmd.sensor_id {
        Some(id) => sensor_views(after.subscribed_sensors@) == unsubscribe_one(sensor_views(before.subscribed_sensors@), id@)
            && after.subscribed_regions == before.subscribed_regions
            && is_text(reply, "{\"type\":\"unsubscribed\",\"sensor_id\":\""@ + id@ + "\",\"status\":\"ok\"}"@),
        None => after == before && reply is Nothing,
    }
    &&& cmd.action@ == "get_subscriptions"@ ==> after == before && (reply matches CommandReply::Subscriptions { sensors, region_count }
        && sensor_views(sensors@) == sensor_views(before.subscribed_sensors@) && region_count == before.subscribed_regions@.len())
    &&& cmd.action@ == "ping"@ ==> after == before
        && is_text(reply, "{\"type\":\"pong\",\"timestamp\":\""@ + crate::text::signed_decimal(wall_ms as int) + "\"}"@)
    &&& cmd.action@ == "get_status"@ ==> after == before && (reply matches CommandReply::Status { connections: c } && c == connections)
    &&& !known_action(cmd.action@) ==> after == before
        && is_text(reply, "{\"type\":\"error\",\"message\":\"Unknown command: "@ + cmd.action@ + "\"}"@)
}

/// Runs a client command against its connection's subscriptions. `connections`
/// is the number of open connections and `wall_ms` the wall-clock time in
/// milliseconds since the Unix epoch.
pub fn handle_client_command<R>(conn: &mut ConnectionMeta<R>, cmd: ClientCommand<R>, connections: u64, wall_ms: i64) -> (reply: CommandReply)
    ensures
        command_effect(*old(conn), cmd, connections, wall_ms, *final(conn), reply),
{
    proof {
        reveal_strlit("subscribe_sensor");
        reveal_strlit("subscribe_sensors");
        reveal_strlit("subscribe_region");
        reveal_strlit("unsubscribe_sensor");
        reveal_strlit("get_subscriptions");
        reveal_strlit("ping");
        reveal_strlit("get_status");
        assert("subscribe_sensors"@.len() != "subscribe_sensor"@.len());
        assert("subscribe_region"@[10] != "subscribe_sensor"@[10]);
        assert("unsubscribe_sensor"@.len() != "subscribe_sensor"@.len());
        assert("unsubscribe_sensor"@.len() != "subscribe_sensors"@.len());
        assert("unsubscribe_sensor"@.len() != "subscribe_region"@.len());
        assert("get_subscriptions"@[0] != "subscribe_sensor"@[0]);
        assert("get_subscriptions"@[0] != "subscribe_sensors"@[0]);
        assert("get_subscriptions"@[0] != "subscribe_region"@[0]);
        assert("get_subscriptions"@[0] != "unsubscribe_sensor"@[0]);
        assert("ping"@[0] != "subscribe_sensor"@[0]);
        assert("ping"@[0] != "subscribe_sensors"@[0]);
        assert("ping"@[0] != "subscribe_region"@[0]);
        assert("ping"@[0] != "unsubscribe_sensor"@[0]);
        assert("ping"@[0] != "get_subscriptions"@[0]);
        assert("get_status"@.len() != "get_subscriptions"@.len());
        assert("get_status"@[0] != "ping"@[0]);
        assert("get_status"@[0] != "subscribe_sensor"@[0]);
        assert("get_status"@[0] != "subscribe_sensors"@[0]);
        assert("get_status"@[0] != "subscribe_region"@[0]);
        assert("get_status"@[0] != "unsubscribe_sensor"@[0]);
    }
    let action = cmd.action.as_str();
    if str_eq(action, "subscribe_sensor") {
        match cmd.sensor_id {
            Some(id) => {
                let text = concat3("{\"type\":\"subscribed\",\"sensor_id\":\"", id.as_str(), "\",\"status\":\"ok\"}");
                conn.subscribe_sensor(id);
                CommandReply::Text(text)
            },
            None => CommandReply::Nothing,
        }
    } else if str_eq(action, "subscribe_sensors") {
        match cmd.sensor_ids {
            Some(ids) => {
                conn.subscribe_sensors(&ids);
                let n = decimal_string(ids.len() as u64);
                let text = concat3("{\"type\":\"subscribed\",\"sensor_count\":", n.as_str(), ",\"status\":\"ok\"}");
                proof {
                    assert(sensor_views(ids@).len() == ids@.len());
                }
                CommandReply::Text(text)
            },
            None => CommandReply::Nothing,
        }
    } else if str_eq(action, "subscribe_region") {
        match cmd.region {
            Some(r) => {
                conn.subscribed_regions.push(r);
                CommandReply::Text(String::from_str("{\"type\":\"subscribed\",\"region\":\"active\",\"status\":\"ok\"}"))
            },
            None => CommandReply::Nothing,
        }
    } else if str_eq(action, "unsubscribe_sensor") {
        match cmd.sensor_id {
            Some(id) => {
                conn.unsubscribe_sensor(id.as_str());
                let text = concat3("{\"type\":\"unsubscribed\",\"sensor_id\":\"", id.as_str(), "\",\"status\":\"ok\"}");
                CommandReply::Text(text)
            },
            None => CommandReply::Nothing,
        }
    } else if str_eq(action, "get_subscriptions") {
        let sensors = crate::access::clone_strings(&conn.subscribed_sensors);
        assert(sensor_views(sensors@) =~= crate::access::names(sensors@));
        assert(sensor_views(conn.subscribed_sensors@) =~= crate::access::names(conn.subscribed_sensors@));
        CommandReply::Subscriptions { sensors, region_count: conn.subscribed_regions.len() }
    } else if str_eq(action, "ping") {
        let t = crate::text::signed_decimal_string(wall_ms);
        CommandReply::Text(concat3("{\"type\":\"pong\",\"timestamp\":\"", t.as_str(), "\"}"))
    } else if str_eq(action, "get_status") {
        CommandReply::Status { connections }
    } else {
        CommandReply::Text(concat3("{\"type\":\"error\",\"message\":\"Unknown command: ", action, "\"}"))
    }
}

// ---------------------------------------------------------------------------
// A connection's event loop
// ---------------------------------------------------------------------------

/// What happened on a connection.
pub enum SocketEvent<R> {
    /// The heartbeat timer fired.
    HeartbeatTick,
    /// An update for `sensor_id` was broadcast; `region_hits[i]` tells whether
    /// its location lies in the connection's `i`-th subscribed region.
    Update { sensor_id: String, region_hits: Vec<bool> },
    /// The connection fell this many broadcast messages behind.
    Lagged(u64),
    /// The broadcast channel closed.
    ChannelClosed,
    /// The client closed the socket, or the socket ended.
    ClientClose,
    /// The client sent a ping.
    ClientPing,
    /// The client answered a ping.
    ClientPong,
    /// The client sent text: the command it holds, `None` when it is not a valid command.
    ClientText(Option<ClientCommand<R>>),
    /// The client sent binary data.
    ClientBinary,
    /// The socket reported an error.
    ClientError,
}

/// What the connection's loop does next.
pub enum SocketAction {
    /// Send a ping; then close the connection when `then_close`.
    Ping { then_close: bool },
    /// Send the update to the client.
    Forward,
    /// Send nothing.
    Skip,
    /// Send this reply.
    Reply(CommandReply),
    /// Answer the client's ping with a pong.
    Pong,
    /// Close the connection.
    Close,
}

/// The sensor id of updates addressed to every connection.
pub open spec fn everyone() -> Seq<char> {
    "all"@
}

/// Whether an update for `sensor_id` goes to this connection: it is addressed
/// to every connection (sensor `all`), the connection subscribes to the
/// sensor, or the update lies in one of its regions.
pub open spec fn wants_update<R>(conn: ConnectionMeta<R>, sensor_id: Seq<char>, region_hits: Seq<bool>) -> bool {
    sensor_id == everyone()
        || sensor_views(conn.subscribed_sensors@).contains(sensor_id)
        || exists|i: int| 0 <= i < conn.subscribed_regions@.len() && i < region_hits.len() && #[trigger] region_hits[i]
}

/// Whether an update reaches a connection, as the broadcaster decides it.
pub fn should_send<R>(conn: &ConnectionMeta<R>, sensor_id: &str, region_hits: &Vec<bool>) -> (r: bool)
    ensures
        r == wants_update(*conn, sensor_id@, region_hits@),
{
    if str_eq(sensor_id, "all") {
        return true;
    }
    if conn.is_subscribed(sensor_id) {
        return true;
    }
    let n = if conn.subscribed_regions.len() < region_hits.len() { conn.subscribed_regions.len() } else { region_hits.len() };
    let mut i: usize = 0;
    while i < n
        invariant
            n <= conn.subscribed_regions@.len() && n <= region_hits@.len(),
            n == conn.subscribed_regions@.len() || n == region_hits@.len(),
            i <= n,
            forall|k: int| 0 <= k < i ==> !region_hits@[k],
        decreases n - i,
    {
        if region_hits[i] {
            return true;
        }
        i = i + 1;
    }
    false
}

/// The lag notice for `n` missed messages.
pub open spec fn lag_text(n: u64) -> Seq<char> {
    "{\"type\":\"lag_notification\",\"missed_messages\":"@ + decimal(n as nat) + "}"@
}

/// Handles one event on a connection at monotonic time `now` (nanoseconds);
/// `connections` and `wall_ms` are handed to client commands.
pub fn socket_step<R>(conn: &mut ConnectionMeta<R>, event: SocketEvent<R>, now: u64, connections: u64, wall_ms: i64) -> (action: SocketAction)
    ensures
        final(conn).id == old(conn).id,
        match event {
            SocketEvent::HeartbeatTick => *final(conn) == *old(conn)
                && action == SocketAction::Ping { then_close: elapsed(now, old(conn).last_activity) > CONNECTION_TIMEOUT * NANOS_PER_SECOND },
            SocketEvent::Update { sensor_id, region_hits } =>
                if wants_update(*old(conn), sensor_id@, region_hits@) {
                    action is Forward && *final(conn) == (ConnectionMeta { last_activity: now, ..*old(conn) })
                } else {
                    action is Skip && *final(conn) == *old(conn)
                },
            SocketEvent::Lagged(n) => *final(conn) == *old(conn) && (action matches SocketAction::Reply(r) && is_text(r, lag_text(n))),
            SocketEvent::ChannelClosed => *final(conn) == *old(conn) && action is Close,
            SocketEvent::ClientClose => *final(conn) == *old(conn) && action is Close,
            SocketEvent::ClientError => *final(conn) == *old(conn) && action is Close,
            SocketEvent::ClientPing => action is Pong && *final(conn) == (ConnectionMeta { last_activity: now, ..*old(conn) }),
            SocketEvent::ClientPong => action is Skip && *final(conn) == (ConnectionMeta { last_activity: now, ..*old(conn) }),
            SocketEvent::ClientBinary => action is Skip && *final(conn) == *old(conn),
            SocketEvent::ClientText(cmd) => {
                let (ok, c, w) = rate_step(old(conn).message_count, old(conn).last_message_time, now);
                &&& final(conn).message_count == c
                &&& final(conn).last_message_time == w
                &&& !ok ==> final(conn).last_activity == old(conn).last_activity
                    && final(conn).subscribed_sensors == old(conn).subscribed_sensors
                    && final(conn).subscribed_regions == old(conn).subscribed_regions
                    && (action matches SocketAction::Reply(r)
                        && is_text(r, "{\"type\":\"error\",\"message\":\"Rate limit exceeded\"}"@))
                &&& ok ==> final(conn).last_activity == now
                &&& ok && cmd is None ==> final(conn).subscribed_sensors == old(conn).subscribed_sensors
                    && final(conn).subscribed_regions == old(conn).subscribed_regions
                    && (action matches SocketAction::Reply(r)
                        && is_text(r, "{\"type\":\"error\",\"message\":\"Invalid command format\"}"@))
                &&& ok && cmd is Some ==> (action matches SocketAction::Reply(r) && command_effect(
                    ConnectionMeta { last_activity: now, message_count: c, last_message_time: w, ..*old(conn) },
                    cmd->0,
                    connections,
                    wall_ms,
                    *final(conn),
                    r,
                ))
            },
        },
{
    match event {
        SocketEvent::HeartbeatTick => SocketAction::Ping { then_close: conn.is_timed_out(now) },
        SocketEvent::Update { sensor_id, region_hits } => {
            if should_send(conn, sensor_id.as_str(), &region_hits) {
                conn.touch(now);
                SocketAction::Forward
            } else {
                SocketAction::Skip
            }
        },
        SocketEvent::Lagged(n) => {
            let d = decimal_string(n);
            SocketAction::Reply(CommandReply::Text(concat3("{\"type\":\"lag_notification\",\"missed_messages\":", d.as_str(), "}")))
        },
        SocketEvent::ChannelClosed => SocketAction::Close,
        SocketEvent::ClientClose => SocketAction::Close,
        SocketEvent::ClientError => SocketAction::Close,
        SocketEvent::ClientPing => {
            conn.touch(now);
            SocketAction::Pong
        },
        SocketEvent::ClientPong => {
            conn.touch(now);
            SocketAction::Skip
        },
        SocketEvent::ClientBinary => SocketAction::Skip,
        SocketEvent::ClientText(cmd) => {
            if !conn.check_rate_limit(now) {
                return SocketAction::Reply(CommandReply::Text(String::from_str("{\"type\":\"error\",\"message\":\"Rate limit exceeded\"}")));
            }
            conn.touch(now);
            match cmd {
                Some(c) => SocketAction::Reply(handle_client_command(conn, c, connections, wall_ms)),
                None => SocketAction::Reply(CommandReply::Text(String::from_str("{\"type\":\"error\",\"message\":\"Invalid command format\"}"))),
            }
        },
    }
}

// ---------------------------------------------------------------------------
// Batching of outgoing updates
// ---------------------------------------------------------------------------

/// Updates waiting to be broadcast together.
pub struct UpdateBatcher<U> {
    batch: Vec<U>,
}

/// Updates per full batch.
pub const BATCH_SIZE: usize = 100;

impl<U> UpdateBatcher<U> {
    /// The waiting updates, oldest first.
    pub closed spec fn pending(&self) -> Seq<U> {
        self.batch@
    }

    /// Nothing waiting.
    pub fn new() -> (b: UpdateBatcher<U>)
        ensures
            b.pending() == Seq::<U>::empty(),
    {
        UpdateBatcher { batch: Vec::new() }
    }

    /// Adds updates; once at least a full batch waits, all of it is handed out.
    pub fn receive(&mut self, updates: Vec<U>) -> (out: Option<Vec<U>>)
        ensures
            old(self).pending().len() + updates@.len() >= BATCH_SIZE ==> (out matches Some(b)
                && b@ == old(self).pending() + updates@ && final(self).pending() == Seq::<U>::empty()),
            old(self).pending().len() + updates@.len() < BATCH_SIZE ==> out is None
                && final(self).pending() == old(self).pending() + updates@,
    {
        let mut updates = updates;
        let ghost before = self.batch@;
        let ghost added = updates@;
        self.batch.append(&mut updates);
        assert(self.batch@ =~= before + added);
        if self.batch.len() >= BATCH_SIZE {
            let mut out: Vec<U> = Vec::new();
            std::mem::swap(&mut out, &mut self.batch);
            Some(out)
        } else {
            None
        }
    }

    /// On the timer: hands out whatever waits, if anything does.
    pub fn tick(&mut self) -> (out: Option<Vec<U>>)
        ensures
            old(self).pending().len() > 0 ==> (out matches Some(b) && b@ == old(self).pending()),
            old(self).pending().len() == 0 ==> out is None,
            final(self).pending() == Seq::<U>::empty(),
    {
        if self.batch.len() > 0 {
            let mut out: Vec<U> = Vec::new();
            std::mem::swap(&mut out, &mut self.batch);
            Some(out)
        } else {
            None
        }
    }
}

// ---------------------------------------------------------------------------
// Connection table
// ---------------------------------------------------------------------------

/// The open connections' bookkeeping, one entry per connection id, and the
/// number of open connections.
pub struct ConnectionTable<R> {
    connections: u64,
    metas: Vec<ConnectionMeta<R>>,
}

/// No connection id occurs twice.
pub open spec fn ids_distinct<R>(ms: Seq<ConnectionMeta<R>>) -> bool {
    forall|i: int, j: int| 0 <= i < j < ms.len() ==> #[trigger] ms[i].id@ != #[trigger] ms[j].id@
}

/// Position of the connection with this id, if any.
pub open spec fn position_of<R>(ms: Seq<ConnectionMeta<R>>, id: Seq<char>) -> Option<int> {
    if exists|i: int| 0 <= i < ms.len() && #[trigger] ms[i].id@ == id {
        Some(choose|i: int| 0 <= i < ms.len() && #[trigger] ms[i].id@ == id)
    } else {
        None
    }
}

/// A session leaves the table as it found it: a connection registered under a
/// fresh id stands last, is found there however its own entry changes while
/// it is open, and unregistering it gives back the entries from before.
pub proof fn law_session_restores_table<R>(before: Seq<ConnectionMeta<R>>, during: Seq<ConnectionMeta<R>>, id: Seq<char>)
    requires
        ids_distinct(before),
        position_of(before, id) is None,
        during.len() == before.len() + 1,
        during.take(before.len() as int) == before,
        during.last().id@ == id,
    ensures
        position_of(during, id) == Some(before.len() as int),
        during.remove(before.len() as int) == before,
{
    let n = before.len() as int;
    assert(during[n].id@ == id);
    assert(exists|i: int| 0 <= i < during.len() && #[trigger] during[i].id@ == id);
    assert(position_of(during, id) is Some);
    let p = position_of(during, id)->0;
    assert(0 <= p < during.len() && during[p].id@ == id);
    if p < n {
        assert(during[p] == during.take(n)[p]);
        assert(before[p].id@ == id);
        assert(exists|i: int| 0 <= i < before.len() && #[trigger] before[i].id@ == id);
        assert(false);
    }
    assert(during.remove(n) =~= during.take(n));
}

impl<R> ConnectionTable<R> {
    /// Bookkeeping of the open connections, in registration order.
    pub closed spec fn entries(&self) -> Seq<ConnectionMeta<R>> {
        self.metas@
    }

    /// The number of open connections.
    pub closed spec fn count(&self) -> nat {
        self.connections as nat
    }

    /// Each connection id appears once.
    pub closed spec fn well_formed(&self) -> bool {
        ids_distinct(self.metas@)
    }

    /// No connection.
    pub fn new() -> (t: ConnectionTable<R>)
        ensures
            t.well_formed(),
            t.entries() == Seq::<ConnectionMeta<R>>::empty(),
            t.count() == 0,
    {
        ConnectionTable { connections: 0, metas: Vec::new() }
    }

    /// The number of open connections.
    pub fn connection_count(&self) -> (n: u64)
        ensures
            n == self.count(),
    {
        self.connections
    }

    fn find(&self, conn_id: &str) -> (r: Option<usize>)
        requires
            self.well_formed(),
        ensures
            match r {
                Some(i) => i < self.entries().len() && position_of(self.entries(), conn_id@) == Some(i as int),
                None => position_of(self.entries(), conn_id@) is None,
            },
    {
        let mut i: usize = 0;
        while i < self.metas.len()
            invariant
                i <= self.metas@.len(),
                ids_distinct(self.metas@),
                forall|k: int| 0 <= k < i ==> self.metas@[k].id@ != conn_id@,
            decreases self.metas.len() - i,
        {
            if str_eq(self.metas[i].id.as_str(), conn_id) {
                proof {
                    let ms = self.metas@;
                    let c = choose|k: int| 0 <= k < ms.len() && #[trigger] ms[k].id@ == conn_id@;
                    if c != i {
                        if c < i {
                            assert(ms[c].id@ != ms[i as int].id@);
                        } else {
                            assert(ms[i as int].id@ != ms[c].id@);
                        }
                    }
                }
                return Some(i);
            }
            i = i + 1;
        }
        None
    }

    /// Counts a newly opened connection.
    pub fn connection_opened(&mut self)
        requires
            old(self).count() < u64::MAX,
        ensures
            final(self).count() == old(self).count() + 1,
            final(self).entries() == old(self).entries(),
            final(self).well_formed() == old(self).well_formed(),
    {
        self.connections = self.connections + 1;
    }

    /// Counts a closed connection.
    pub fn connection_closed(&mut self)
        requires
            old(self).count() > 0,
        ensures
            final(self).count() == old(self).count() - 1,
            final(self).entries() == old(self).entries(),
            final(self).well_formed() == old(self).well_formed(),
    {
        self.connections = self.connections - 1;
    }

    /// Registers a connection opened at `now`: fresh bookkeeping, replacing
    /// any held under the same id.
    pub fn register_connection(&mut self, conn_id: String, client_info: Option<String>, now: u64)
        requires
            old(self).well_formed(),
        ensures
            final(self).well_formed(),
            final(self).count() == old(self).count(),
            ({
                let m = final(self).entries();
                match position_of(old(self).entries(), conn_id@) {
                    Some(i) => m.len() == old(self).entries().len() && m[i].id@ == conn_id@
                        && forall|k: int| 0 <= k < m.len() && k != i ==> m[k] == old(self).entries()[k],
                    None => m.len() == old(self).entries().len() + 1 && m.last().id@ == conn_id@
                        && m.drop_last() == old(self).entries(),
                }
            }),
            ({
                let c = final(self).entries()[position_of(final(self).entries(), conn_id@)->0];
                &&& position_of(final(self).entries(), conn_id@) is Some
                &&& c.client_info == client_info
                &&& c.connected_at == now && c.last_activity == now && c.last_message_time == now
                &&& c.message_count == 0
                &&& c.subscribed_sensors@.len() == 0 && c.subscribed_regions@.len() == 0
            }),
    {
        let found = self.find(conn_id.as_str());
        let ghost id = conn_id@;
        let mut conn: ConnectionMeta<R> = ConnectionMeta::new(conn_id, now);
        conn.client_info = client_info;
        let ghost c = conn;
        let ghost m0 = self.metas@;
        match found {
            Some(i) => {
                self.metas.set(i, conn);
                proof {
                    let m1 = self.metas@;
                    assert forall|a: int, b: int| 0 <= a < b < m1.len() implies #[trigger] m1[a].id@ != #[trigger] m1[b].id@ by {
                        assert(m1[a].id@ == m0[a].id@ && m1[b].id@ == m0[b].id@);
                    }
                    assert(m1[i as int].id@ == id);
                    let p = choose|k: int| 0 <= k < m1.len() && #[trigger] m1[k].id@ == id;
                    if p != i {
                        if p < i { assert(m1[p].id@ != m1[i as int].id@); } else { assert(m1[i as int].id@ != m1[p].id@); }
                    }
                }
            },
            None => {
                self.metas.push(conn);
                proof {
                    let m1 = self.metas@;
                    assert(m1.drop_last() =~= m0);
                    assert forall|a: int, b: int| 0 <= a < b < m1.len() implies #[trigger] m1[a].id@ != #[trigger] m1[b].id@ by {
                        if b == m1.len() - 1 {
                            assert(m0[a].id@ != id);
                        }
                    }
                    assert(m1[m1.len() - 1].id@ == id);
                    let p = choose|k: int| 0 <= k < m1.len() && #[trigger] m1[k].id@ == id;
                    if p != m1.len() - 1 {
                        assert(m0[p].id@ == id);
                    }
                }
            },
        }
    }

    /// Forgets a connection's bookkeeping.
    pub fn unregister_connection(&mut self, conn_id: &str)
        requires
            old(self).well_formed(),
        ensures
            final(self).well_formed(),
            final(self).count() == old(self).count(),
            match position_of(old(self).entries(), conn_id@) {
                Some(i) => final(self).entries() == old(self).entries().remove(i),
                None => final(self).entries() == old(self).entries(),
            },
            position_of(final(self).entries(), conn_id@) is None,
    {
        let ghost m0 = self.metas@;
        match self.find(conn_id) {
            Some(i) => {
                self.metas.remove(i);
                proof {
                    let m1 = self.metas@;
                    assert(m1 =~= m0.remove(i as int));
                    assert forall|a: int, b: int| 0 <= a < b < m1.len() implies #[trigger] m1[a].id@ != #[trigger] m1[b].id@ by {
                        let a0 = if a < i { a } else { a + 1 };
                        let b0 = if b < i { b } else { b + 1 };
                        assert(m1[a] == m0[a0] && m1[b] == m0[b0]);
                    }
                    if exists|k: int| 0 <= k < m1.len() && #[trigger] m1[k].id@ == conn_id@ {
                        let k = choose|k: int| 0 <= k < m1.len() && #[trigger] m1[k].id@ == conn_id@;
                        let k0 = if k < i { k } else { k + 1 };
                        assert(m1[k] == m0[k0]);
                        if k0 < i { assert(m0[k0].id@ != m0[i as int].id@); } else { assert(m0[i as int].id@ != m0[k0].id@); }
                    }
                }
            },
            None => {},
        }
    }

    /// Takes a connection's bookkeeping out of the table, for its loop to work on.
    pub fn take(&mut self, conn_id: &str) -> (r: Option<ConnectionMeta<R>>)
        requires
            old(self).well_formed(),
        ensures
            final(self).well_formed(),
            final(self).count() == old(self).count(),
            match position_of(old(self).entries(), conn_id@) {
                Some(i) => r == Some(old(self).entries()[i]) && final(self).entries() == old(self).entries().remove(i),
                None => r is None && final(self).entries() == old(self).entries(),
            },
    {
        let ghost m0 = self.metas@;
        match self.find(conn_id) {
            Some(i) => {
                let m = self.metas.remove(i);
                proof {
                    let m1 = self.metas@;
                    assert forall|a: int, b: int| 0 <= a < b < m1.len() implies #[trigger] m1[a].id@ != #[trigger] m1[b].id@ by {
                        let a0 = if a < i { a } else { a + 1 };
                        let b0 = if b < i { b } else { b + 1 };
                        assert(m1[a] == m0[a0] && m1[b] == m0[b0]);
                    }
                }
                Some(m)
            },
            None => None,
        }
    }

    /// Puts a connection's bookkeeping back, unless one with its id is there.
    pub fn put(&mut self, conn: ConnectionMeta<R>) -> (stored: bool)
        requires
            old(self).well_formed(),
        ensures
            final(self).well_formed(),
            final(self).count() == old(self).count(),
            stored == (position_of(old(self).entries(), conn.id@) is None),
            stored ==> final(self).entries() == old(self).entries().push(conn),
            !stored ==> final(self).entries() == old(self).entries(),
    {
        let ghost m0 = self.metas@;
        match self.find(conn.id.as_str()) {
            Some(_) => false,
            None => {
                let ghost id = conn.id@;
                self.metas.push(conn);
                proof {
                    let m1 = self.metas@;
                    assert forall|a: int, b: int| 0 <= a < b < m1.len() implies #[trigger] m1[a].id@ != #[trigger] m1[b].id@ by {
                        if b == m1.len() - 1 {
                            assert(m0[a].id@ != id);
                        }
                    }
                }
                true
            },
        }
    }

    /// Replaces a connection's subscriptions and records activity at `now`.
    pub fn update_subscriptions(&mut self, conn_id: &str, sensors: Vec<String>, regions: Vec<R>, now: u64)
        requires
            old(self).well_formed(),
        ensures
            final(self).well_formed(),
            final(self).count() == old(self).count(),
            match position_of(old(self).entries(), conn_id@) {
                Some(i) => final(self).entries() == old(self).entries().update(i, ConnectionMeta {
                    subscribed_sensors: sensors,
                    subscribed_regions: regions,
                    last_activity: now,
                    ..old(self).entries()[i]
                }),
                None => final(self).entries() == old(self).entries(),
            },
    {
        let ghost m0 = self.metas@;
        match self.find(conn_id) {
            Some(i) => {
                let mut m = self.metas.remove(i);
                m.subscribed_sensors = sensors;
                m.subscribed_regions = regions;
                m.touch(now);
                self.metas.insert(i, m);
                proof {
                    let m1 = self.metas@;
                    assert forall|a: int, b: int| 0 <= a < b < m1.len() implies #[trigger] m1[a].id@ != #[trigger] m1[b].id@ by {
                        assert(m1[a].id@ == m0[a].id@ && m1[b].id@ == m0[b].id@);
                    }
                }
            },
            None => {},
        }
    }

    /// Whether an update for `sensor_id` goes to the connection `conn_id`;
    /// never to an unknown connection.
    pub fn should_send_to_connection(&self, conn_id: &str, sensor_id: &str, region_hits: &Vec<bool>) -> (r: bool)
        requires
            self.well_formed(),
        ensures
            r == match position_of(self.entries(), conn_id@) {
                Some(i) => wants_update(self.entries()[i], sensor_id@, region_hits@),
                None => false,
            },
    {
        match self.find(conn_id) {
            Some(i) => should_send(&self.metas[i], sensor_id, region_hits),
            None => false,
        }
    }
}


// ---------------------------------------------------------------------------
// Broadcasting updates
// ---------------------------------------------------------------------------

/// One real-time update as it goes out to the connections; `D` is its payload
/// and `timestamp_ms` the wall-clock time it was made, in Unix milliseconds.
#[derive(Clone, Debug)]
pub struct RealTimeUpdate<D> {
    pub update_type: UpdateType,
    pub sensor_id: String,
    pub timestamp_ms: i64,
    pub data: D,
}

/// Updates each listening connection can fall behind by before it lags.
pub const UPDATE_CHANNEL_CAPACITY: usize = 10000;

/// The update addressed to every connection.
pub fn alert_update<D>(message: D, now_ms: i64) -> (u: RealTimeUpdate<D>)
    ensures
        u.update_type == UpdateType::Alert,
        u.sensor_id@ == "all"@,
        u.timestamp_ms == now_ms,
        u.data == message,
{
    RealTimeUpdate { update_type: UpdateType::Alert, sensor_id: String::from_str("all"), timestamp_ms: now_ms, data: message }
}

/// The update about one sensor's reading.
pub fn reading_update<D>(sensor_id: &str, message: D, now_ms: i64) -> (u: RealTimeUpdate<D>)
    ensures
        u.update_type == UpdateType::Reading,
        u.sensor_id@ == sensor_id@,
        u.timestamp_ms == now_ms,
        u.data == message,
{
    RealTimeUpdate { update_type: UpdateType::Reading, sensor_id: String::from_str(sensor_id), timestamp_ms: now_ms, data: message }
}

/// The text of a refused broadcast.
pub open spec fn broadcast_failed() -> Seq<char> {
    "Broadcast failed"@
}

/// What a broadcast answers, given how many connections the channel reached:
/// `None` when no connection listens.
pub fn broadcast_outcome(reached: Option<usize>) -> (r: Result<(), String>)
    ensures
        reached is Some <==> r is Ok,
        r matches Err(e) ==> e@ == broadcast_failed(),
{
    match reached {
        Some(_) => Ok(()),
        None => Err(String::from_str("Broadcast failed")),
    }
}

/// The channel every connection listens on for updates.
#[verifier::reject_recursive_types(D)]
pub struct UpdateChannel<D> {
    tx: tokio::sync::broadcast::Sender<RealTimeUpdate<D>>,
    capacity: Ghost<nat>,
}

impl<D> UpdateChannel<D> {
    /// The capacity the channel was created with: how many updates it buffers
    /// per listener.
    pub closed spec fn capacity(&self) -> nat {
        self.capacity@
    }

    /// A channel buffering `UPDATE_CHANNEL_CAPACITY` updates per listener, with
    /// no listener yet.
    pub fn new() -> (c: UpdateChannel<D>)
        ensures
            c.capacity() == UPDATE_CHANNEL_CAPACITY,
    {
        UpdateChannel { tx: crate::common::broadcast_sender(UPDATE_CHANNEL_CAPACITY), capacity: Ghost(UPDATE_CHANNEL_CAPACITY as nat) }
    }

    /// A listener for the updates sent from now on.
    pub fn subscribe(&self) -> tokio::sync::broadcast::Receiver<RealTimeUpdate<D>> {
        crate::common::broadcast_subscribe(&self.tx)
    }

    /// Sends `message` to every connection as an alert made at `now_ms`
    /// (`alert_update`); refused with "Broadcast failed" when none listens.
    pub fn broadcast_all_at(&self, message: D, now_ms: i64) -> (r: Result<(), String>)
        ensures
            r matches Err(e) ==> e@ == broadcast_failed(),
    {
        let update = alert_update(message, now_ms);
        broadcast_outcome(crate::common::broadcast_send(&self.tx, update))
    }

    /// `broadcast_all_at` at the current time.
    pub fn broadcast_all(&self, message: D) -> (r: Result<(), String>)
        ensures
            r matches Err(e) ==> e@ == broadcast_failed(),
    {
        self.broadcast_all_at(message, crate::clock::now_millis())
    }

    /// Sends `message` as the reading update of `sensor_id` made at `now_ms`
    /// (`reading_update`); refused with "Broadcast failed" when none listens.
    pub fn broadcast_at(&self, sensor_id: &str, message: D, now_ms: i64) -> (r: Result<(), String>)
        ensures
            r matches Err(e) ==> e@ == broadcast_failed(),
    {
        let update = reading_update(sensor_id, message, now_ms);
        broadcast_outcome(crate::common::broadcast_send(&self.tx, update))
    }

    /// `broadcast_at` at the current time.
    pub fn broadcast(&self, sensor_id: &str, message: D) -> (r: Result<(), String>)
        ensures
            r matches Err(e) ==> e@ == broadcast_failed(),
    {
        self.broadcast_at(sensor_id, message, crate::clock::now_millis())
    }

    /// Sends each update in turn; one that reaches no connection is passed
    /// over, and the batch as a whole always succeeds.
    pub fn broadcast_batch(&self, updates: Vec<RealTimeUpdate<D>>) -> (r: Result<(), String>)
        ensures
            r is Ok,
    {
        let mut rest = updates;
        while rest.len() > 0
            decreases rest.len(),
        {
            let update = rest.remove(0);
            let _ = crate::common::broadcast_send(&self.tx, update);
        }
        Ok(())
    }
}

} // verus!
