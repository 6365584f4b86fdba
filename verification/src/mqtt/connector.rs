//! The broker source connector: wildcard routing of broker messages onto
//! bus topics, and the record each message becomes.

use vstd::prelude::*;

use crate::buffer::sat_add;
use crate::bus::{ConnectorError, ErrorKind, Offset, ProducerConfig, SourceRecord};
use crate::envelope::{b64_of, json_ok, payload_from_bytes};
use crate::mqtt::config::{MqttConfig, QoS, TopicMapping};

verus! {

/// A topic split at slashes, with the segment being read.
pub open spec fn seg_rec(s: Seq<char>, cur: Seq<char>) -> Seq<Seq<char>>
    decreases s.len(),
{
    if s.len() == 0 {
        seq![cur]
    } else if s[0] == '/' {
        seq![cur] + seg_rec(s.drop_first(), Seq::empty())
    } else {
        seg_rec(s.drop_first(), cur.push(s[0]))
    }
}

/// The slash-separated segments of a topic; an empty text is one empty
/// segment.
pub open spec fn segments(s: Seq<char>) -> Seq<Seq<char>> {
    seg_rec(s, Seq::empty())
}

/// The model of a split topic.
pub open spec fn segs_model(segs: Seq<Vec<char>>) -> Seq<Seq<char>>
    decreases segs,
{
    if segs.len() == 0 {
        Seq::empty()
    } else {
        seq![segs[0]@] + segs_model(segs.drop_first())
    }
}

/// `segs_model` maps the sequence pointwise.
pub broadcast proof fn lemma_segs_model_len(segs: Seq<Vec<char>>)
    ensures
        (#[trigger] segs_model(segs)).len() == segs.len(),
        forall|i: int| 0 <= i < segs.len() ==> segs_model(segs)[i] == segs[i]@,
    decreases segs,
{
    if segs.len() > 0 {
        lemma_segs_model_len(segs.drop_first());
    }
}

/// Split a topic at slashes.
#[verifier::loop_isolation(false)]
pub fn split_segments(s: &str) -> (r: Vec<Vec<char>>)
    ensures
        segs_model(r@) == segments(s@),
{
    broadcast use lemma_segs_model_len;

    let len = s.unicode_len();
    let mut out: Vec<Vec<char>> = Vec::new();
    let mut cur: Vec<char> = Vec::new();
    proof {
        assert(s@.skip(0) =~= s@);
        assert(cur@ =~= Seq::<char>::empty());
        assert(segs_model(out@) =~= Seq::<Seq<char>>::empty());
        assert(segs_model(out@) + seg_rec(s@.skip(0), cur@) =~= segments(s@));
    }
    for i in 0..len
        invariant
            segments(s@) == segs_model(out@) + seg_rec(s@.skip(i as int), cur@),
    {
        proof {
            assert(s@.skip(i as int)[0] == s@[i as int]);
            assert(s@.skip(i as int).drop_first() =~= s@.skip(i + 1));
        }
        let c = s.get_char(i);
        if c == '/' {
            let ghost out_before = out@;
            let ghost done = cur@;
            out.push(cur);
            cur = Vec::new();
            proof {
                assert(cur@ =~= Seq::<char>::empty());
                assert(segs_model(out@) =~= segs_model(out_before) + seq![done]);
                assert((segs_model(out_before) + (seq![done] + seg_rec(
                    s@.skip(i + 1),
                    Seq::empty(),
                ))) =~= (segs_model(out_before) + seq![done]) + seg_rec(
                    s@.skip(i + 1),
                    Seq::empty(),
                ));
            }
        } else {
            cur.push(c);
        }
    }
    proof {
        assert(s@.skip(len as int) =~= Seq::<char>::empty());
    }
    let ghost out_before = out@;
    let ghost done = cur@;
    out.push(cur);
    proof {
        assert(segs_model(out@) =~= segs_model(out_before) + seq![done]);
    }
    out
}

/// Literal segment-by-segment wildcard matching: `+` matches exactly one
/// segment, a terminal `#` matches zero or more trailing segments, and
/// anything else matches only itself.  A `#` that is not the pattern's
/// last segment matches nothing, and without a terminal `#` the pattern
/// and the topic must have the same length.
pub open spec fn match_parts_spec(ps: Seq<Seq<char>>, ts: Seq<Seq<char>>) -> bool
    decreases ps.len() + ts.len(),
{
    if ps.len() == 0 {
        ts.len() == 0
    } else if ps[0] == seq!['#'] {
        ps.len() == 1
    } else if ts.len() == 0 {
        false
    } else if ps[0] == seq!['+'] {
        match_parts_spec(ps.drop_first(), ts.drop_first())
    } else if ps[0] == ts[0] {
        match_parts_spec(ps.drop_first(), ts.drop_first())
    } else {
        false
    }
}

/// Whether a pattern matches a topic under the wildcard rules.
pub open spec fn topic_matches_spec(pattern: Seq<char>, topic: Seq<char>) -> bool {
    match_parts_spec(segments(pattern), segments(topic))
}

/// Compare two segments by their characters.
fn seg_eq(a: &Vec<char>, b: &Vec<char>) -> (r: bool)
    ensures
        r == (a@ == b@),
{
    if a.len() != b.len() {
        proof {
            assert(a@ != b@);
        }
        return false;
    }
    let n = a.len();
    for i in 0..n
        invariant
            n == a@.len() == b@.len(),
            forall|j: int| 0 <= j < i ==> a@[j] == b@[j],
    {
        if a[i] != b[i] {
            return false;
        }
    }
    proof {
        assert(a@ =~= b@);
    }
    true
}

/// Match pattern segments against topic segments, from the given starting
/// positions.
#[verifier::loop_isolation(false)]
fn match_from(ps: &Vec<Vec<char>>, ts: &Vec<Vec<char>>, pi: usize, ti: usize) -> (r: bool)
    requires
        pi <= ps@.len(),
        ti <= ts@.len(),
    ensures
        r == match_parts_spec(segs_model(ps@).skip(pi as int), segs_model(ts@).skip(ti as int)),
    decreases ps@.len() - pi,
{
    broadcast use lemma_segs_model_len;

    let ghost pm = segs_model(ps@).skip(pi as int);
    let ghost tm = segs_model(ts@).skip(ti as int);
    if pi == ps.len() {
        return ti == ts.len();
    }
    proof {
        assert(pm[0] == segs_model(ps@)[pi as int]);
        assert(pm.drop_first() =~= segs_model(ps@).skip(pi + 1));
    }
    let p = &ps[pi];
    if p.len() == 1 && p[0] == '#' {
        proof {
            assert(p@ =~= seq!['#']);
        }
        return pi + 1 == ps.len();
    }
    proof {
        assert(p@ != seq!['#']);
    }
    if ti == ts.len() {
        return false;
    }
    proof {
        assert(tm[0] == segs_model(ts@)[ti as int]);
        assert(tm.drop_first() =~= segs_model(ts@).skip(ti + 1));
    }
    if p.len() == 1 && p[0] == '+' {
        proof {
            assert(p@ =~= seq!['+']);
        }
        return match_from(ps, ts, pi + 1, ti + 1);
    }
    proof {
        assert(p@ != seq!['+']);
    }
    if seg_eq(&ps[pi], &ts[ti]) {
        match_from(ps, ts, pi + 1, ti + 1)
    } else {
        false
    }
}

/// Whether a broker topic matches a pattern with `+` and `#` wildcards.
pub fn topic_matches(pattern: &str, topic: &str) -> (r: bool)
    ensures
        r == topic_matches_spec(pattern@, topic@),
{
    broadcast use lemma_segs_model_len;

    let ps = split_segments(pattern);
    let ts = split_segments(topic);
    proof {
        assert(segs_model(ps@).skip(0) =~= segs_model(ps@));
        assert(segs_model(ts@).skip(0) =~= segs_model(ts@));
    }
    match_from(&ps, &ts, 0, 0)
}

/// Every concrete topic — one free of the multi-segment wildcard, as
/// broker topics are — matches itself segment by segment.
pub proof fn lemma_match_refl(ts: Seq<Seq<char>>)
    requires
        forall|j: int| 0 <= j < ts.len() ==> (#[trigger] ts[j]) != seq!['#'],
    ensures
        match_parts_spec(ts, ts),
    decreases ts.len(),
{
    if ts.len() > 0 {
        assert(forall|j: int|
            0 <= j < ts.drop_first().len() ==> (#[trigger] ts.drop_first()[j]) == ts[j + 1]);
        lemma_match_refl(ts.drop_first());
    }
}

/// Concretizing one single-segment wildcard to the matched concrete
/// topic's segment at the same position keeps the pattern matching that
/// topic.
pub proof fn lemma_plus_concretization(ps: Seq<Seq<char>>, ts: Seq<Seq<char>>, i: int)
    requires
        match_parts_spec(ps, ts),
        0 <= i < ps.len(),
        i < ts.len(),
        ps[i] == seq!['+'],
        forall|j: int| 0 <= j < ts.len() ==> (#[trigger] ts[j]) != seq!['#'],
    ensures
        match_parts_spec(ps.update(i, ts[i]), ts),
    decreases i,
{
    let up = ps.update(i, ts[i]);
    assert(seq!['#'][0] == '#');
    assert(seq!['+'][0] == '+');
    assert(seq!['#'] != seq!['+']);
    if i == 0 {
        assert(up[0] == ts[0]);
        assert(up.drop_first() =~= ps.drop_first());
        assert(ts[0] != seq!['#']);
    } else {
        assert(ps[0] != seq!['#']);
        assert(forall|j: int|
            0 <= j < ts.drop_first().len() ==> (#[trigger] ts.drop_first()[j]) == ts[j + 1]);
        lemma_plus_concretization(ps.drop_first(), ts.drop_first(), i - 1);
        assert(ps.drop_first()[i - 1] == ps[i]);
        assert(ts.drop_first()[i - 1] == ts[i]);
        assert(up[0] == ps[0]);
        assert(up.drop_first() =~= ps.drop_first().update(i - 1, ts[i]));
    }
}

/// Concretizing a terminal multi-segment wildcard to the matched concrete
/// topic's remaining segments — possibly none — keeps the pattern
/// matching that topic.
pub proof fn lemma_hash_concretization(ps: Seq<Seq<char>>, ts: Seq<Seq<char>>)
    requires
        match_parts_spec(ps, ts),
        ps.len() > 0,
        ps.last() == seq!['#'],
        forall|j: int| 0 <= j < ps.len() - 1 ==> ps[j] != seq!['#'],
        forall|j: int| 0 <= j < ts.len() ==> (#[trigger] ts[j]) != seq!['#'],
    ensures
        match_parts_spec(ps.take(ps.len() - 1) + ts.skip(ps.len() - 1), ts),
        ts.len() >= ps.len() - 1,
    decreases ps.len(),
{
    if ps.len() == 1 {
        assert(ps.take(0) + ts.skip(0) =~= ts);
        lemma_match_refl(ts);
    } else {
        assert(ps[0] != seq!['#']);
        assert(ts.len() > 0);
        assert(forall|j: int|
            0 <= j < ts.drop_first().len() ==> (#[trigger] ts.drop_first()[j]) == ts[j + 1]);
        lemma_hash_concretization(ps.drop_first(), ts.drop_first());
        assert(ts.len() >= ps.len() - 1);
        let sub = ps.drop_first().take(ps.len() - 2) + ts.drop_first().skip(ps.len() - 2);
        let whole = ps.take(ps.len() - 1) + ts.skip(ps.len() - 1);
        assert(ps.drop_first().last() == ps.last());
        assert(whole[0] == ps[0]);
        assert(whole.drop_first() =~= sub);
        assert(whole[0] != seq!['#']);
        if ps[0] == seq!['+'] {
        } else {
            assert(ps[0] == ts[0]);
            assert(whole[0] == ts[0]);
        }
    }
}

/// The first mapping whose pattern applies to this broker topic, exactly
/// or through wildcards; the first match wins.
pub open spec fn route_index_spec(ms: Seq<TopicMapping>, topic: Seq<char>) -> Option<int>
    decreases ms.len(),
{
    if ms.len() == 0 {
        Option::None
    } else if ms[0].mqtt_topic@ == topic || topic_matches_spec(ms[0].mqtt_topic@, topic) {
        Option::Some(0int)
    } else {
        match route_index_spec(ms.drop_first(), topic) {
            Option::Some(i) => Option::Some(i + 1),
            Option::None => Option::None,
        }
    }
}

/// A found index is in range and applies; everything before it does not.
pub proof fn lemma_route_index_spec(ms: Seq<TopicMapping>, topic: Seq<char>)
    ensures
        match route_index_spec(ms, topic) {
            Option::Some(i) => 0 <= i < ms.len() && (ms[i].mqtt_topic@ == topic
                || topic_matches_spec(ms[i].mqtt_topic@, topic)) && (forall|j: int|
                0 <= j < i ==> ms[j].mqtt_topic@ != topic && !topic_matches_spec(
                    ms[j].mqtt_topic@,
                    topic,
                )),
            Option::None => forall|j: int|
                0 <= j < ms.len() ==> ms[j].mqtt_topic@ != topic && !topic_matches_spec(
                    ms[j].mqtt_topic@,
                    topic,
                ),
        },
    decreases ms.len(),
{
    if ms.len() > 0 {
        lemma_route_index_spec(ms.drop_first(), topic);
        let tail = ms.drop_first();
        assert(forall|j: int| 0 <= j < tail.len() ==> #[trigger] tail[j] == ms[j + 1]);
        if !(ms[0].mqtt_topic@ == topic || topic_matches_spec(ms[0].mqtt_topic@, topic)) {
            match route_index_spec(tail, topic) {
                Option::Some(i) => {
                    assert(tail[i] == ms[i + 1]);
                    assert forall|j: int|
                        0 <= j < i + 1 implies ms[j].mqtt_topic@ != topic && !topic_matches_spec(
                        ms[j].mqtt_topic@,
                        topic,
                    ) by {
                        if j > 0 {
                            assert(tail[j - 1] == ms[j]);
                        }
                    }
                },
                Option::None => {
                    assert forall|j: int|
                        0 <= j < ms.len() implies ms[j].mqtt_topic@ != topic
                        && !topic_matches_spec(ms[j].mqtt_topic@, topic) by {
                        if j > 0 {
                            assert(tail[j - 1] == ms[j]);
                        }
                    }
                },
            }
        }
    }
}

/// Find the first mapping routing this broker topic.
#[verifier::loop_isolation(false)]
pub fn find_mapping_static<'a>(mqtt_topic: &str, topic_mappings: &'a Vec<TopicMapping>) -> (r:
    Option<&'a TopicMapping>)
    ensures
        match r {
            Option::Some(m) => route_index_spec(topic_mappings@, mqtt_topic@) matches Option::Some(
                i,
            ) && *m == topic_mappings@[i],
            Option::None => route_index_spec(topic_mappings@, mqtt_topic@) is None,
        },
{
    let ghost ms = topic_mappings@;
    let n = topic_mappings.len();
    for i in 0..n
        invariant
            forall|j: int|
                0 <= j < i ==> ms[j].mqtt_topic@ != mqtt_topic@ && !topic_matches_spec(
                    ms[j].mqtt_topic@,
                    mqtt_topic@,
                ),
    {
        let hit = crate::text::str_eq(topic_mappings[i].mqtt_topic.as_str(), mqtt_topic)
            || topic_matches(topic_mappings[i].mqtt_topic.as_str(), mqtt_topic);
        if hit {
            proof {
                lemma_route_index_spec(ms, mqtt_topic@);
                match route_index_spec(ms, mqtt_topic@) {
                    Option::Some(k) => {
                        assert(!(k < i as int));
                        assert(!(k > i as int));
                    },
                    Option::None => {
                        assert(false);
                    },
                }
            }
            return Option::Some(&topic_mappings[i]);
        }
    }
    proof {
        lemma_route_index_spec(ms, mqtt_topic@);
    }
    Option::None
}

/// The text of a boolean.
pub open spec fn bool_text(b: bool) -> Seq<char> {
    if b {
        "true"@
    } else {
        "false"@
    }
}

/// The attributes a broker message carries onto the bus.
pub open spec fn mqtt_attrs_model(topic: Seq<char>, qos: QoS, retain: bool, dup: bool) -> Seq<
    (Seq<char>, Seq<char>),
> {
    seq![
        ("mqtt.topic"@, topic),
        (
            "mqtt.qos"@,
            crate::text::dec_digits(
                match qos {
                    QoS::AtMostOnce => 0nat,
                    QoS::AtLeastOnce => 1nat,
                    QoS::ExactlyOnce => 2nat,
                },
            ),
        ),
        ("mqtt.retain"@, bool_text(retain)),
        ("mqtt.dup"@, bool_text(dup)),
        ("source"@, "mqtt"@),
    ]
}

/// Turn one broker message into a bus record for its mapping's topic: the
/// bytes travel as JSON when they parse, inside the base64 envelope when
/// they do not; broker metadata becomes attributes and the broker topic
/// the routing key when metadata is on.
pub fn publish_to_record_static(
    publish_topic: &str,
    payload: Vec<u8>,
    qos: QoS,
    retain: bool,
    dup: bool,
    mapping: &TopicMapping,
    with_metadata: bool,
) -> (r: SourceRecord)
    ensures
        r.topic@ == mapping.danube_topic@,
        json_ok(payload@) ==> (r.payload matches crate::bus::SourcePayload::Json(b) && b@
            == payload@),
        !json_ok(payload@) ==> (r.payload matches crate::bus::SourcePayload::Envelope(e)
            && e.data@ == b64_of(payload@) && e.size == payload@.len()),
        with_metadata ==> crate::bus::attrs_model(r.attributes@) == mqtt_attrs_model(
            publish_topic@,
            qos,
            retain,
            dup,
        ) && (r.key matches Option::Some(k) && k@ == publish_topic@),
        !with_metadata ==> r.attributes@.len() == 0 && r.key is None,
{
    let shape = payload_from_bytes(payload);
    let mut record = SourceRecord::new(mapping.danube_topic.clone(), shape);
    if with_metadata {
        record = record.with_attribute(
            String::from_str("mqtt.topic"),
            String::from_str(publish_topic),
        );
        record = record.with_attribute(
            String::from_str("mqtt.qos"),
            crate::text::u64_to_dec(qos.level() as u64),
        );
        record = record.with_attribute(
            String::from_str("mqtt.retain"),
            if retain {
                String::from_str("true")
            } else {
                String::from_str("false")
            },
        );
        record = record.with_attribute(
            String::from_str("mqtt.dup"),
            if dup {
                String::from_str("true")
            } else {
                String::from_str("false")
            },
        );
        record = record.with_attribute(String::from_str("source"), String::from_str("mqtt"));
        record = record.with_key(String::from_str(publish_topic));
        proof {
            assert(crate::bus::attrs_model(record.attributes@) =~= mqtt_attrs_model(
                publish_topic@,
                qos,
                retain,
                dup,
            ));
        }
    }
    record
}

/// The broker source connector: the configuration and the count of
/// committed offsets; the broker client and its event loop live outside.
#[derive(Debug)]
pub struct MqttSourceConnector {
    pub config: MqttConfig,
    pub offset_counter: u64,
}

impl MqttSourceConnector {
    /// A connector over the given configuration.
    pub fn with_config(config: MqttConfig) -> (r: MqttSourceConnector)
        ensures
            r.config == config,
            r.offset_counter == 0,
    {
        MqttSourceConnector { config, offset_counter: 0 }
    }

    /// A connector with an empty configuration.
    pub fn new() -> (r: MqttSourceConnector)
        ensures
            r.offset_counter == 0,
            r.config.broker_host@.len() == 0,
            r.config.broker_port == 1883,
            r.config.client_id@.len() == 0,
            r.config.username is None,
            r.config.password is None,
            r.config.use_tls == false,
            r.config.keep_alive_secs == 60,
            r.config.connection_timeout_secs == 30,
            r.config.max_packet_size == 10 * 1024 * 1024,
            r.config.topic_mappings@.len() == 0,
            r.config.clean_session == true,
            r.config.include_metadata == true,
            r.config.tcp_nodelay == true,
    {
        MqttSourceConnector {
            config: MqttConfig {
                broker_host: String::new(),
                broker_port: 1883,
                client_id: String::new(),
                username: Option::None,
                password: Option::None,
                use_tls: false,
                keep_alive_secs: 60,
                connection_timeout_secs: 30,
                max_packet_size: 10 * 1024 * 1024,
                topic_mappings: Vec::new(),
                clean_session: true,
                include_metadata: true,
                tcp_nodelay: true,
            },
            offset_counter: 0,
        }
    }

    /// Whether a broker topic matches a pattern with wildcards.
    pub fn topic_matches(pattern: &str, topic: &str) -> (r: bool)
        ensures
            r == topic_matches_spec(pattern@, topic@),
    {
        topic_matches(pattern, topic)
    }

    /// One producer endpoint per mapping; with none configured, a
    /// configuration error.
    #[verifier::loop_isolation(false)]
    pub fn producer_configs(&self) -> (r: Result<Vec<ProducerConfig>, ConnectorError>)
        ensures
            self.config.topic_mappings@.len() == 0 <==> (r matches Result::Err(e) && e.kind
                == ErrorKind::Config),
            r matches Result::Ok(cs) ==> cs@.len() == self.config.topic_mappings@.len() && (
            forall|i: int|
                0 <= i < cs@.len() ==> {
                    let m = &self.config.topic_mappings@[i];
                    let c = #[trigger] cs@[i];
                    &&& c.topic@ == m.danube_topic@
                    &&& c.partitions == m.partitions
                    &&& c.reliable_dispatch == match m.reliable_dispatch {
                        Option::Some(b) => b,
                        Option::None => m.qos != QoS::AtMostOnce,
                    }
                }),
    {
        let n = self.config.topic_mappings.len();
        if n == 0 {
            return Result::Err(ConnectorError::config(String::from_str("no topic mappings")));
        }
        let mut out: Vec<ProducerConfig> = Vec::new();
        for i in 0..n
            invariant
                out@.len() == i,
                forall|j: int|
                    0 <= j < i ==> {
                        let m = &self.config.topic_mappings@[j];
                        let c = #[trigger] out@[j];
                        &&& c.topic@ == m.danube_topic@
                        &&& c.partitions == m.partitions
                        &&& c.reliable_dispatch == match m.reliable_dispatch {
                            Option::Some(b) => b,
                            Option::None => m.qos != QoS::AtMostOnce,
                        }
                    },
        {
            let m = &self.config.topic_mappings[i];
            out.push(
                ProducerConfig {
                    topic: m.danube_topic.clone(),
                    partitions: m.partitions,
                    reliable_dispatch: m.effective_reliable_dispatch(),
                },
            );
        }
        Result::Ok(out)
    }

    /// Account committed offsets; the broker acknowledges deliveries on
    /// its own, so this only keeps the running count.
    pub fn commit(&mut self, offsets: Vec<Offset>)
        ensures
            final(self).config == old(self).config,
            final(self).offset_counter == sat_add(
                old(self).offset_counter,
                offsets@.len() as u64,
            ),
    {
        let n = offsets.len() as u64;
        if self.offset_counter <= u64::MAX - n {
            self.offset_counter = self.offset_counter + n;
        } else {
            self.offset_counter = u64::MAX;
        }
    }
}

} // verus!
