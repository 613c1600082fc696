//! When a device is polled after a message that could not be turned into
//! events. The platform API has a quota, so polls are kept rare.
use crate::device::Device;
use vstd::hash_map::StringHashMap;
use vstd::prelude::*;

verus! {

/// The least time between two such polls of one device, in nanoseconds.
pub const POLL_COOLDOWN: u64 = 60_000_000_000;

/// A point in time: the seconds since the Unix epoch, without leap seconds,
/// and the nanoseconds on top. Within a leap second the seconds stand still,
/// and the nanoseconds are a second or more.
#[derive(Debug, Clone, Copy, PartialEq, Eq)]
pub struct Timestamp {
    pub seconds: i64,
    pub nanos: u32,
}

/// The seconds from one point in time to another. A leap second at either
/// point counts where the other point lies behind it by the time of day.
pub open spec fn seconds_between(earlier: Timestamp, later: Timestamp) -> int {
    let from = earlier.seconds as int % 86_400;
    let to = later.seconds as int % 86_400;
    later.seconds - earlier.seconds + if to > from && earlier.nanos >= 1_000_000_000 {
        1int
    } else if to < from && later.nanos >= 1_000_000_000 {
        -1int
    } else {
        0int
    }
}

/// The nanoseconds from one point in time to another.
pub open spec fn nanos_between(earlier: Timestamp, later: Timestamp) -> int {
    seconds_between(earlier, later) * 1_000_000_000 + later.nanos - earlier.nanos
}

impl Timestamp {
    /// The second of the day.
    fn time_of_day(&self) -> (r: i64)
        ensures
            r == self.seconds as int % 86_400,
    {
        match self.seconds.checked_rem_euclid(86_400) {
            Some(second) => second,
            None => 0,
        }
    }

    /// The nanoseconds from an earlier point in time to this one.
    pub fn nanos_since(&self, earlier: Timestamp) -> (r: i128)
        ensures
            r == nanos_between(earlier, *self),
    {
        let from: i64 = earlier.time_of_day();
        let to: i64 = self.time_of_day();
        let leap: i128 = if to > from && earlier.nanos >= 1_000_000_000 {
            1
        } else if to < from && self.nanos >= 1_000_000_000 {
            -1
        } else {
            0
        };
        let seconds: i128 = self.seconds as i128 - earlier.seconds as i128 + leap;
        seconds * 1_000_000_000 + self.nanos as i128 - earlier.nanos as i128
    }
}

/// Whether a device is polled, or why it is not.
#[derive(Debug, Clone, Copy, PartialEq, Eq)]
pub enum PollDecision {
    /// What is known of the device is not old enough to ask again.
    StillFresh,
    /// The last poll of the device is too recent.
    CoolingDown,
    /// Poll the device.
    Poll,
}

/// A wish to poll a device.
pub struct PollRequest {
    /// The id of the device.
    pub id: Seq<char>,
    /// When its state was last updated, if it has one.
    pub updated: Option<Timestamp>,
    /// The time of the wish on the same clock.
    pub wall_now: Timestamp,
    /// The age in nanoseconds at which the state of the device is out of date.
    pub interval: int,
    /// The time of the wish on a clock that never goes back, in nanoseconds.
    pub now: u64,
}

/// The time from `earlier` to `later`, or none if it is not later.
pub open spec fn elapsed(earlier: u64, later: u64) -> int {
    if later > earlier {
        later - earlier
    } else {
        0
    }
}

/// Whether a device was polled less than the cooldown ago.
pub open spec fn cooling_down(last: Map<Seq<char>, u64>, id: Seq<char>, now: u64) -> bool {
    last.contains_key(id) && elapsed(last[id], now) < POLL_COOLDOWN
}

/// Whether what is known of the device is not out of date. A device without a
/// state has nothing fresh.
pub open spec fn is_fresh(request: PollRequest) -> bool {
    request.updated matches Some(updated) && nanos_between(updated, request.wall_now)
        < request.interval
}

/// The answer to a wish, given when each device was last polled.
pub open spec fn decide(last: Map<Seq<char>, u64>, request: PollRequest) -> PollDecision {
    if is_fresh(request) {
        PollDecision::StillFresh
    } else if cooling_down(last, request.id, request.now) {
        PollDecision::CoolingDown
    } else {
        PollDecision::Poll
    }
}

/// When each device was last polled, after the answer to a wish.
pub open spec fn record(last: Map<Seq<char>, u64>, request: PollRequest) -> Map<Seq<char>, u64> {
    if decide(last, request) == PollDecision::Poll {
        last.insert(request.id, request.now)
    } else {
        last
    }
}

/// When each device was last polled, after a series of wishes.
pub open spec fn recorded(requests: Seq<PollRequest>) -> Map<Seq<char>, u64>
    decreases requests.len(),
{
    if requests.len() == 0 {
        Map::empty()
    } else {
        record(recorded(requests.drop_last()), requests.last())
    }
}

/// Whether the wish at the given place in a series is granted.
pub open spec fn granted(requests: Seq<PollRequest>, i: int) -> bool {
    decide(recorded(requests.take(i)), requests[i]) == PollDecision::Poll
}

/// When each device was last polled.
pub struct PollCooldown {
    last: StringHashMap<u64>,
}

impl View for PollCooldown {
    type V = Map<Seq<char>, u64>;

    closed spec fn view(&self) -> Map<Seq<char>, u64> {
        self.last@
    }
}

impl PollCooldown {
    /// No device has been polled.
    pub fn new() -> (r: PollCooldown)
        ensures
            r@ == Map::<Seq<char>, u64>::empty(),
    {
        PollCooldown { last: StringHashMap::new() }
    }

    /// Records a poll of a device, unless it was polled less than the cooldown
    /// ago.
    pub fn start_poll(&mut self, id: &str, now: u64) -> (started: bool)
        ensures
            started == !cooling_down(old(self)@, id@, now),
            final(self)@ == if started {
                old(self)@.insert(id@, now)
            } else {
                old(self)@
            },
    {
        if let Some(last) = self.last.get(id) {
            let since: u64 = if now > *last {
                now - *last
            } else {
                0
            };
            if since < POLL_COOLDOWN {
                return false;
            }
        }
        self.last.insert(id.to_owned(), now);
        true
    }
}

/// Decides whether to poll a device, and records the poll. `updated` is when
/// the state of the device was last updated, `wall_now` the time of day,
/// `interval` the age in nanoseconds at which the state is out of date, and
/// `now` the time on a clock that never goes back.
pub fn maybe_poll_device(
    cooldown: &mut PollCooldown,
    device: &Device,
    updated: Option<Timestamp>,
    wall_now: Timestamp,
    interval: i128,
    now: u64,
) -> (r: PollDecision)
    ensures
        ({
            let request = PollRequest {
                id: device.id@,
                updated,
                wall_now,
                interval: interval as int,
                now,
            };
            r == decide(old(cooldown)@, request) && final(cooldown)@ == record(
                old(cooldown)@,
                request,
            )
        }),
{
    if let Some(updated) = updated {
        if wall_now.nanos_since(updated) < interval {
            return PollDecision::StillFresh;
        }
    }
    if cooldown.start_poll(device.id.as_str(), now) {
        PollDecision::Poll
    } else {
        PollDecision::CoolingDown
    }
}

/// What is recorded of a device is the time of its last granted poll.
proof fn lemma_recorded(requests: Seq<PollRequest>, id: Seq<char>)
    ensures
        forall|i: int|
            #![trigger requests[i]]
            0 <= i < requests.len() && requests[i].id == id && granted(requests, i)
                ==> recorded(requests).contains_key(id),
        recorded(requests).contains_key(id) ==> exists|i: int|
            #![trigger requests[i]]
            {
                &&& 0 <= i < requests.len()
                &&& requests[i].id == id
                &&& granted(requests, i)
                &&& recorded(requests)[id] == requests[i].now
                &&& forall|j: int|
                    #![trigger requests[j]]
                    i < j < requests.len() && requests[j].id == id ==> !granted(requests, j)
            },
    decreases requests.len(),
{
    if requests.len() > 0 {
        let before = requests.drop_last();
        let n = requests.len() - 1;
        lemma_recorded(before, id);
        assert(requests.take(n) == before);
        assert forall|i: int| 0 <= i < n implies granted(requests, i) == #[trigger] granted(
            before,
            i,
        ) && requests[i] == before[i] by {
            assert(requests.take(i) == before.take(i));
        }
        assert forall|i: int|
            #![trigger requests[i]]
            0 <= i < requests.len() && requests[i].id == id && granted(requests, i)
                implies recorded(requests).contains_key(id) by {
            if i < n {
                assert(granted(before, i));
                assert(before[i].id == id);
            }
        }
        if recorded(requests).contains_key(id) {
            if granted(requests, n) && requests[n].id == id {
                assert(recorded(requests)[id] == requests[n].now);
            } else {
                assert(recorded(before).contains_key(id));
                assert(recorded(requests)[id] == recorded(before)[id]);
                let i = choose|i: int|
                    #![trigger before[i]]
                    {
                        &&& 0 <= i < before.len()
                        &&& before[i].id == id
                        &&& granted(before, i)
                        &&& recorded(before)[id] == before[i].now
                        &&& forall|j: int|
                            #![trigger before[j]]
                            i < j < before.len() && before[j].id == id ==> !granted(before, j)
                    };
                assert(granted(before, i));
                assert(requests[i] == before[i]);
                assert forall|j: int|
                    #![trigger requests[j]]
                    i < j < requests.len() && requests[j].id == id implies !granted(requests, j) by {
                    if j < n {
                        assert(granted(requests, j) == granted(before, j));
                        assert(before[j] == requests[j]);
                    }
                }
            }
        }
    }
}

/// However often polls of a device are wished for, two that are granted are at
/// least the cooldown apart.
pub proof fn polls_keep_their_distance(requests: Seq<PollRequest>, i: int, j: int)
    requires
        0 <= i < j < requests.len(),
        requests[i].id == requests[j].id,
        granted(requests, i),
        granted(requests, j),
    ensures
        requests[j].now - requests[i].now >= POLL_COOLDOWN,
    decreases j,
{
    let before = requests.take(j);
    let id = requests[j].id;
    lemma_recorded(before, id);
    assert(before.take(i) == requests.take(i));
    assert(before[i] == requests[i]);
    assert(granted(before, i));
    assert(recorded(before).contains_key(id));
    let k = choose|k: int|
        #![trigger before[k]]
        {
            &&& 0 <= k < before.len()
            &&& before[k].id == id
            &&& granted(before, k)
            &&& recorded(before)[id] == before[k].now
            &&& forall|l: int|
                #![trigger before[l]]
                k < l < before.len() && before[l].id == id ==> !granted(before, l)
        };
    assert(before[k] == requests[k]);
    assert(i <= k);
    if i < k {
        assert(before.take(k) == requests.take(k));
        polls_keep_their_distance(requests, i, k);
    }
}

/// The record starts empty, and one more wish changes it as
/// [`maybe_poll_device`] says.
pub proof fn one_more_wish(requests: Seq<PollRequest>, request: PollRequest)
    ensures
        recorded(Seq::empty()) == Map::<Seq<char>, u64>::empty(),
        recorded(requests.push(request)) == record(recorded(requests), request),
        granted(requests.push(request), requests.len() as int) <==> decide(
            recorded(requests),
            request,
        ) == PollDecision::Poll,
{
    assert(requests.push(request).drop_last() == requests);
    assert(requests.push(request).take(requests.len() as int) == requests);
}

/// A wish for one device leaves what is recorded of another as it is.
pub proof fn polls_do_not_interfere(
    last: Map<Seq<char>, u64>,
    request: PollRequest,
    other: Seq<char>,
)
    requires
        other != request.id,
    ensures
        record(last, request).contains_key(other) == last.contains_key(other),
        last.contains_key(other) ==> record(last, request)[other] == last[other],
{
}

/// A device whose state is not out of date is not polled.
pub proof fn fresh_devices_are_not_polled(last: Map<Seq<char>, u64>, request: PollRequest)
    requires
        is_fresh(request),
    ensures
        decide(last, request) != PollDecision::Poll,
        record(last, request) == last,
{
}

/// The time between two points in time is their difference in nanoseconds. A
/// leap second that the one with the earlier time of day falls into counts on
/// top, and seen from the other end the time is the opposite.
pub proof fn time_between_is_a_difference(earlier: Timestamp, later: Timestamp)
    ensures
        nanos_between(earlier, later) == -nanos_between(later, earlier),
        earlier.seconds as int % 86_400 <= later.seconds as int % 86_400 ==> nanos_between(
            earlier,
            later,
        ) == (later.seconds * 1_000_000_000 + later.nanos) - (earlier.seconds * 1_000_000_000
            + earlier.nanos) + if earlier.nanos >= 1_000_000_000 && earlier.seconds as int % 86_400
            != later.seconds as int % 86_400 {
            1_000_000_000int
        } else {
            0
        },
{
}

/// Outside of leap seconds the age of a state is the plain difference, to the
/// nanosecond.
pub proof fn ages_are_exact(now: &Timestamp, updated: Timestamp, r: i128)
    requires
        call_ensures(Timestamp::nanos_since, (now, updated), r),
        now.nanos < 1_000_000_000,
        updated.nanos < 1_000_000_000,
    ensures
        r == (now.seconds - updated.seconds) * 1_000_000_000 + (now.nanos - updated.nanos),
{
}

/// What becomes of a wish to poll. A device without a state, or with one that
/// is at least `interval` old, is polled unless its last poll was less than a
/// minute ago, and the poll is recorded as its last one. No other wish is
/// granted, and none of those leaves a trace.
pub proof fn stale_devices_are_polled_again(
    cooldown: &mut PollCooldown,
    device: &Device,
    updated: Option<Timestamp>,
    wall_now: Timestamp,
    interval: i128,
    now: u64,
    r: PollDecision,
)
    requires
        call_ensures(
            maybe_poll_device,
            (cooldown, device, updated, wall_now, interval, now),
            r,
        ),
    ensures
        ({
            let last = old(cooldown)@;
            let stale = updated is None || nanos_between(updated->0, wall_now) >= interval;
            let rested = !last.contains_key(device.id@) || now - last[device.id@]
                >= 60 * 1_000_000_000;
            &&& r == PollDecision::Poll <==> stale && rested
            &&& r == PollDecision::CoolingDown <==> stale && !rested
            &&& r == PollDecision::StillFresh <==> !stale
            &&& stale && rested ==> final(cooldown)@ == last.insert(device.id@, now)
            &&& !(stale && rested) ==> final(cooldown)@ == last
        }),
{
}

/// A poll starts unless the last one of the same device was less than a minute
/// ago, and then it is the last one.
pub proof fn rested_devices_start_a_poll(
    cooldown: &mut PollCooldown,
    id: &str,
    now: u64,
    started: bool,
)
    requires
        call_ensures(PollCooldown::start_poll, (cooldown, id, now), started),
    ensures
        started <==> !old(cooldown)@.contains_key(id@) || now - old(cooldown)@[id@] >= 60
            * 1_000_000_000,
        started ==> final(cooldown)@ == old(cooldown)@.insert(id@, now),
        !started ==> final(cooldown)@ == old(cooldown)@,
{
}

/// However the wishes before it were answered, a wish for a device that is out
/// of date is granted if all wishes for that device within the last minute
/// were refused.
pub proof fn polling_never_stops(requests: Seq<PollRequest>, i: int)
    requires
        0 <= i < requests.len(),
        requests[i].updated is None || nanos_between(requests[i].updated->0, requests[i].wall_now)
            >= requests[i].interval,
        forall|j: int|
            0 <= j < i && (#[trigger] requests[j]).id == requests[i].id && granted(requests, j)
                ==> requests[i].now - requests[j].now >= 60 * 1_000_000_000,
    ensures
        granted(requests, i),
        recorded(requests.take(i + 1)).contains_key(requests[i].id),
        recorded(requests.take(i + 1))[requests[i].id] == requests[i].now,
{
    let before = requests.take(i);
    let id = requests[i].id;
    lemma_recorded(before, id);
    if recorded(before).contains_key(id) {
        let k = choose|k: int|
            #![trigger before[k]]
            {
                &&& 0 <= k < before.len()
                &&& before[k].id == id
                &&& granted(before, k)
                &&& recorded(before)[id] == before[k].now
                &&& forall|l: int|
                    #![trigger before[l]]
                    k < l < before.len() && before[l].id == id ==> !granted(before, l)
            };
        assert(before[k] == requests[k]);
        assert(before.take(k) == requests.take(k));
        assert(granted(requests, k));
    }
    assert(requests.take(i + 1).drop_last() == before);
    assert(requests.take(i + 1).last() == requests[i]);
}

/// Nothing is recorded of any device at first.
pub proof fn no_device_is_polled_at_first(cooldown: PollCooldown, id: Seq<char>)
    requires
        call_ensures(PollCooldown::new, (), cooldown),
    ensures
        !cooldown@.contains_key(id),
{
}

} // verus!
