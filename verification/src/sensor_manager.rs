//! The Sensor State Store: the latest known reading per sensor, per broker
//! client, with first-seen enumeration order and at most one entry per
//! sensor identifier.

use vstd::prelude::*;

use crate::clock::{format_time_of_day, local_time_now, time_of_day_seq, TimeOfDay};
use crate::text::str_eq;

verus! {

/// Ghost image of one sensor reading.
pub struct SensorView {
    pub id: Seq<char>,
    pub value: Seq<char>,
    pub timestamp: TimeOfDay,
    pub topic: Seq<char>,
    pub valid: bool,
}

/// The latest known reading of one sensor: its identifier, the value
/// literal as received, the local time of the last update, the topic the
/// reading arrived on, and a validity flag (reserved; never cleared).
pub struct Sensor {
    pub id: String,
    pub value: String,
    pub timestamp: TimeOfDay,
    pub topic: String,
    pub valid: bool,
}

impl View for Sensor {
    type V = SensorView;

    open spec fn view(&self) -> SensorView {
        SensorView {
            id: self.id@,
            value: self.value@,
            timestamp: self.timestamp,
            topic: self.topic@,
            valid: self.valid,
        }
    }
}

/// The publishable encoding of a reading: `"<value>#<sensor_id>#<HH:MM:SS>"`.
pub open spec fn encoded_seq(sv: SensorView) -> Seq<char> {
    sv.value + seq!['#'] + sv.id + seq!['#'] + time_of_day_seq(sv.timestamp)
}

impl Sensor {
    /// Creates a reading observed now.
    pub fn new(id: String, value: String, topic: String) -> (s: Sensor)
        ensures
            s@.id == id@,
            s@.value == value@,
            s@.topic == topic@,
            s@.valid,
            s@.timestamp.wf(),
    {
        let now = local_time_now();
        Sensor::new_at(id, value, topic, now)
    }

    /// Creates a reading with an explicit observation time.
    pub fn new_at(id: String, value: String, topic: String, timestamp: TimeOfDay) -> (s: Sensor)
        ensures
            s@ == (SensorView { id: id@, value: value@, timestamp, topic: topic@, valid: true }),
    {
        Sensor { id, value, timestamp, topic, valid: true }
    }

    /// Overwrites this reading with a new observation made now.
    pub fn update(&mut self, value: String, topic: String)
        ensures
            final(self)@.id == old(self)@.id,
            final(self)@.value == value@,
            final(self)@.topic == topic@,
            final(self)@.valid,
            final(self)@.timestamp.wf(),
    {
        let now = local_time_now();
        self.update_at(value, topic, now);
    }

    /// Overwrites this reading with an observation made at `timestamp`.
    pub fn update_at(&mut self, value: String, topic: String, timestamp: TimeOfDay)
        ensures
            final(self)@ == (SensorView {
                id: old(self)@.id,
                value: value@,
                timestamp,
                topic: topic@,
                valid: true,
            }),
    {
        self.value = value;
        self.timestamp = timestamp;
        self.valid = true;
        self.topic = topic;
    }

    /// Renders this reading in its publishable encoding.
    pub fn get_encoded_string(&self) -> (r: String)
        requires
            self@.timestamp.wf(),
        ensures
            r@ == encoded_seq(self@),
    {
        proof {
            reveal_strlit("#");
        }
        let mut out = self.value.clone();
        out.append("#");
        out.append(self.id.as_str());
        out.append("#");
        let ts = format_time_of_day(self.timestamp);
        out.append(ts.as_str());
        out
    }

    /// The topic this reading last arrived on.
    pub fn get_topic_string(&self) -> (r: String)
        ensures
            r@ == self@.topic,
    {
        self.topic.clone()
    }
}

/// The store holds a reading for `id`.
pub open spec fn has_sensor(s: Seq<SensorView>, id: Seq<char>) -> bool {
    exists|i: int| 0 <= i < s.len() && s[i].id == id
}

/// The position of the reading for `id`.
pub open spec fn sensor_index(s: Seq<SensorView>, id: Seq<char>) -> int {
    choose|i: int| 0 <= i < s.len() && s[i].id == id
}

/// Store well-formedness: each sensor identifier appears at most once and
/// every timestamp is a valid time of day.
pub open spec fn sensors_wf(s: Seq<SensorView>) -> bool {
    &&& forall|i: int, j: int|
        #![trigger s[i].id, s[j].id]
        0 <= i < j < s.len() ==> s[i].id != s[j].id
    &&& forall|i: int| 0 <= i < s.len() ==> (#[trigger] s[i]).timestamp.wf()
}

/// What one observation does to the store: the reading for `id` is
/// overwritten in place if present, appended otherwise (last-write-wins by
/// arrival order).
pub open spec fn spec_update_sensor(
    s: Seq<SensorView>,
    id: Seq<char>,
    value: Seq<char>,
    topic: Seq<char>,
    now: TimeOfDay,
) -> Seq<SensorView> {
    let reading = SensorView { id, value, timestamp: now, topic, valid: true };
    if has_sensor(s, id) {
        s.update(sensor_index(s, id), reading)
    } else {
        s.push(reading)
    }
}

/// Per-client store of latest sensor readings, in first-seen order.
pub struct SensorManager {
    pub sensors: Vec<Sensor>,
}

impl View for SensorManager {
    type V = Seq<SensorView>;

    open spec fn view(&self) -> Seq<SensorView> {
        self.sensors@.map_values(|s: Sensor| s@)
    }
}

impl SensorManager {
    /// An empty store.
    pub fn new() -> (m: SensorManager)
        ensures
            m@ == Seq::<SensorView>::empty(),
            sensors_wf(m@),
    {
        let m = SensorManager { sensors: Vec::new() };
        proof {
            assert(m@ =~= Seq::<SensorView>::empty());
        }
        m
    }

    /// Records an observation made now for `sensor_id`.
    pub fn update_sensor(&mut self, sensor_id: String, value: String, topic: String)
        requires
            sensors_wf(old(self)@),
        ensures
            sensors_wf(final(self)@),
            exists|now: TimeOfDay|
                #[trigger] now.wf() && final(self)@ == spec_update_sensor(
                    old(self)@,
                    sensor_id@,
                    value@,
                    topic@,
                    now,
                ),
    {
        let now = local_time_now();
        self.update_sensor_at(sensor_id, value, topic, now);
    }

    /// Records an observation made at `now` for `sensor_id`.
    pub fn update_sensor_at(&mut self, sensor_id: String, value: String, topic: String, now: TimeOfDay)
        requires
            sensors_wf(old(self)@),
            now.wf(),
        ensures
            final(self)@ == spec_update_sensor(old(self)@, sensor_id@, value@, topic@, now),
            sensors_wf(final(self)@),
    {
        let ghost orig = self@;
        let mut i: usize = 0;
        while i < self.sensors.len()
            invariant
                *self == *old(self),
                self@ == orig,
                sensors_wf(orig),
                now.wf(),
                i <= self.sensors@.len(),
                forall|j: int| 0 <= j < i ==> orig[j].id != sensor_id@,
            decreases self.sensors@.len() - i,
        {
            if str_eq(self.sensors[i].id.as_str(), sensor_id.as_str()) {
                proof {
                    assert(orig[i as int].id == sensor_id@);
                    assert(has_sensor(orig, sensor_id@));
                }
                let reading = Sensor::new_at(sensor_id, value, topic, now);
                self.sensors.set(i, reading);
                proof {
                    let k = sensor_index(orig, sensor_id@);
                    assert(0 <= k < orig.len() && orig[k].id == sensor_id@);
                    assert(k == i as int) by {
                        if k < i as int {
                            assert(orig[k].id != orig[i as int].id);
                        }
                        if k > i as int {
                            assert(orig[i as int].id != orig[k].id);
                        }
                    }
                    assert(self@ =~= spec_update_sensor(orig, sensor_id@, value@, topic@, now));
                    assert forall|a: int| 0 <= a < self@.len() implies (#[trigger] self@[a]).id
                        == orig[a].id && self@[a].timestamp.wf() by {
                        if a != i as int {
                            assert(self@[a] == orig[a]);
                        }
                    }
                    assert forall|a: int, b: int|
                        #![trigger self@[a].id, self@[b].id]
                        0 <= a < b < self@.len() implies self@[a].id != self@[b].id by {
                        assert(orig[a].id != orig[b].id);
                    }
                }
                return;
            }
            i += 1;
        }
        let reading = Sensor::new_at(sensor_id, value, topic, now);
        self.sensors.push(reading);
        proof {
            assert(!has_sensor(orig, sensor_id@));
            assert(self@ =~= spec_update_sensor(orig, sensor_id@, value@, topic@, now));
        }
    }

    /// The current readings, in the order they were first observed.
    pub fn get_sensors(&self) -> (r: &Vec<Sensor>)
        ensures
            r@.map_values(|s: Sensor| s@) == self@,
    {
        &self.sensors
    }
}

/// One observation keeps the store well formed and leaves exactly one
/// reading for the observed sensor, holding the observed value, stamped
/// with the observation time; the store grows only when the sensor was
/// new.
pub proof fn lemma_update_sensor(
    s: Seq<SensorView>,
    id: Seq<char>,
    value: Seq<char>,
    topic: Seq<char>,
    now: TimeOfDay,
)
    requires
        sensors_wf(s),
        now.wf(),
    ensures
        ({
            let s2 = spec_update_sensor(s, id, value, topic, now);
            &&& sensors_wf(s2)
            &&& has_sensor(s2, id)
            &&& s2[sensor_index(s2, id)].id == id
            &&& s2[sensor_index(s2, id)].value == value
            &&& s2[sensor_index(s2, id)].timestamp == now
            &&& s2[sensor_index(s2, id)].topic == topic
            &&& s2[sensor_index(s2, id)].valid
            &&& forall|i: int|
                0 <= i < s2.len() && (#[trigger] s2[i]).id == id ==> i == sensor_index(s2, id)
            &&& has_sensor(s, id) ==> s2.len() == s.len()
            &&& !has_sensor(s, id) ==> s2.len() == s.len() + 1
        }),
{
    let reading = SensorView { id, value, timestamp: now, topic, valid: true };
    let s2 = spec_update_sensor(s, id, value, topic, now);
    if has_sensor(s, id) {
        let k = sensor_index(s, id);
        assert(0 <= k < s.len() && s[k].id == id);
        assert(s2 == s.update(k, reading));
        assert forall|a: int| 0 <= a < s2.len() implies (#[trigger] s2[a]).id == s[a].id
            && s2[a].timestamp.wf() by {
            if a != k {
                assert(s2[a] == s[a]);
            }
        }
        assert forall|a: int, b: int|
            #![trigger s2[a].id, s2[b].id]
            0 <= a < b < s2.len() implies s2[a].id != s2[b].id by {
            assert(s[a].id != s[b].id);
        }
        assert(s2[k].id == id);
        assert forall|i: int| 0 <= i < s2.len() && (#[trigger] s2[i]).id == id implies i == k by {
            if i != k {
                assert(s[i].id == s2[i].id);
            }
        }
        assert(sensor_index(s2, id) == k);
    } else {
        let n = s.len() as int;
        assert(s2 == s.push(reading));
        assert(s2[n] == reading);
        assert forall|a: int, b: int|
            #![trigger s2[a].id, s2[b].id]
            0 <= a < b < s2.len() implies s2[a].id != s2[b].id by {
            if b < n {
                assert(s[a].id != s[b].id);
            } else {
                assert(s2[a] == s[a]);
                assert(s[a].id != id);
            }
        }
        assert forall|a: int| 0 <= a < s2.len() implies (#[trigger] s2[a]).timestamp.wf() by {
            if a < n {
                assert(s2[a] == s[a]);
            }
        }
        assert forall|i: int| 0 <= i < s2.len() && (#[trigger] s2[i]).id == id implies i == n by {
            if i < n {
                assert(s2[i] == s[i]);
                assert(s[i].id != id);
            }
        }
        assert(sensor_index(s2, id) == n);
    }
}

/// Last-write-wins: two successive observations for the same sensor leave
/// the store holding only the second value, stamped with the second time,
/// and the enumeration count does not increase between them.
pub proof fn lemma_last_write_wins(
    s: Seq<SensorView>,
    id: Seq<char>,
    value1: Seq<char>,
    topic1: Seq<char>,
    now1: TimeOfDay,
    value2: Seq<char>,
    topic2: Seq<char>,
    now2: TimeOfDay,
)
    requires
        sensors_wf(s),
        now1.wf(),
        now2.wf(),
    ensures
        ({
            let s1 = spec_update_sensor(s, id, value1, topic1, now1);
            let s2 = spec_update_sensor(s1, id, value2, topic2, now2);
            &&& s2.len() == s1.len()
            &&& has_sensor(s2, id)
            &&& s2[sensor_index(s2, id)].value == value2
            &&& s2[sensor_index(s2, id)].timestamp == now2
            &&& forall|i: int|
                0 <= i < s2.len() && (#[trigger] s2[i]).id == id ==> i == sensor_index(s2, id)
        }),
{
    lemma_update_sensor(s, id, value1, topic1, now1);
    let s1 = spec_update_sensor(s, id, value1, topic1, now1);
    lemma_update_sensor(s1, id, value2, topic2, now2);
}

} // verus!
