//! The webhook source connector: endpoint lookup, the record an accepted
//! request becomes, and the producer endpoints the configuration implies.

use vstd::prelude::*;

use crate::bus::{
    attrs_lookup, attrs_model, ConnectorError, ErrorKind, ProducerConfig, SourceRecord,
};
use crate::envelope::{b64_of, json_ok, payload_from_bytes};
use crate::webhook::config::{EndpointConfig, WebhookSourceConfig};
use crate::webhook::server::{endpoint_index_spec, lemma_endpoint_index_spec};

verus! {

/// The webhook source connector: the configuration; the HTTP server and
/// the channel to the bus runtime live outside.
#[derive(Debug)]
pub struct WebhookConnector {
    pub config: WebhookSourceConfig,
}

/// The attributes an accepted webhook carries onto the bus: its source
/// connector, endpoint and acceptance instant, then the client address
/// and the named headers where present.
pub open spec fn webhook_attrs_model(
    connector_name: Seq<char>,
    endpoint_path: Seq<char>,
    now_iso: Seq<char>,
    client_ip: Option<Seq<char>>,
    headers: Seq<(Seq<char>, Seq<char>)>,
) -> Seq<(Seq<char>, Seq<char>)> {
    seq![
        ("webhook.source"@, connector_name),
        ("webhook.endpoint"@, endpoint_path),
        ("webhook.timestamp"@, now_iso),
    ] + (match client_ip {
        Option::Some(ip) => seq![("webhook.ip"@, ip)],
        Option::None => Seq::empty(),
    }) + (match attrs_lookup(headers, "user-agent"@) {
        Option::Some(ua) => seq![("webhook.user_agent"@, ua)],
        Option::None => Seq::empty(),
    }) + (match attrs_lookup(headers, "content-type"@) {
        Option::Some(ct) => seq![("webhook.content_type"@, ct)],
        Option::None => Seq::empty(),
    })
}

impl WebhookConnector {
    /// A connector over the given configuration.
    pub fn with_config(config: WebhookSourceConfig) -> (r: WebhookConnector)
        ensures
            r.config == config,
    {
        WebhookConnector { config }
    }

    /// The configuration.
    pub fn config(&self) -> (r: &WebhookSourceConfig)
        ensures
            r == &self.config,
    {
        &self.config
    }

    /// The endpoint configured at this path, if any.
    #[verifier::loop_isolation(false)]
    pub fn get_endpoint<'a>(&'a self, path: &str) -> (r: Option<&'a EndpointConfig>)
        ensures
            match r {
                Option::Some(e) => endpoint_index_spec(
                    self.config.endpoints@,
                    path@,
                ) matches Option::Some(i) && *e == self.config.endpoints@[i],
                Option::None => endpoint_index_spec(self.config.endpoints@, path@) is None,
            },
    {
        let ghost es = self.config.endpoints@;
        let n = self.config.endpoints.len();
        for i in 0..n
            invariant
                forall|j: int| 0 <= j < i ==> es[j].path@ != path@,
        {
            if crate::text::str_eq(self.config.endpoints[i].path.as_str(), path) {
                proof {
                    lemma_endpoint_index_spec(es, path@);
                    match endpoint_index_spec(es, path@) {
                        Option::Some(k) => {
                            assert(!(k < i as int));
                            assert(!(k > i as int));
                        },
                        Option::None => {
                            assert(false);
                        },
                    }
                }
                return Option::Some(&self.config.endpoints[i]);
            }
        }
        proof {
            lemma_endpoint_index_spec(es, path@);
        }
        Option::None
    }

    /// Turn an accepted webhook body into a bus record for its endpoint's
    /// topic: the bytes travel as JSON when they parse, inside the base64
    /// envelope when they do not, with the intake's attributes attached.
    /// Headers are given with lowercase names; `now_iso` is the
    /// acceptance instant's text.
    pub fn create_source_record(
        endpoint_config: &EndpointConfig,
        connector_name: &str,
        endpoint_path: &str,
        payload: Vec<u8>,
        headers: &Vec<(String, String)>,
        client_ip: Option<&String>,
        now_iso: &str,
    ) -> (r: SourceRecord)
        ensures
            r.topic@ == endpoint_config.danube_topic@,
            json_ok(payload@) ==> (r.payload matches crate::bus::SourcePayload::Json(b) && b@
                == payload@),
            !json_ok(payload@) ==> (r.payload matches crate::bus::SourcePayload::Envelope(e)
                && e.data@ == b64_of(payload@) && e.size == payload@.len()),
            attrs_model(r.attributes@) == webhook_attrs_model(
                connector_name@,
                endpoint_path@,
                now_iso@,
                match client_ip {
                    Option::Some(ip) => Option::Some(ip@),
                    Option::None => Option::None,
                },
                attrs_model(headers@),
            ),
            r.key is None,
    {
        let shape = payload_from_bytes(payload);
        let mut record = SourceRecord::new(endpoint_config.danube_topic.clone(), shape);
        record = record.with_attribute(
            String::from_str("webhook.source"),
            String::from_str(connector_name),
        );
        record = record.with_attribute(
            String::from_str("webhook.endpoint"),
            String::from_str(endpoint_path),
        );
        record = record.with_attribute(
            String::from_str("webhook.timestamp"),
            String::from_str(now_iso),
        );
        match client_ip {
            Option::Some(ip) => {
                record = record.with_attribute(String::from_str("webhook.ip"), ip.clone());
            },
            Option::None => {},
        }
        match crate::webhook::auth::lookup_header(headers, "user-agent") {
            Option::Some(ua) => {
                record = record.with_attribute(String::from_str("webhook.user_agent"), ua.clone());
            },
            Option::None => {},
        }
        match crate::webhook::auth::lookup_header(headers, "content-type") {
            Option::Some(ct) => {
                record = record.with_attribute(
                    String::from_str("webhook.content_type"),
                    ct.clone(),
                );
            },
            Option::None => {},
        }
        proof {
            assert(attrs_model(record.attributes@) =~= webhook_attrs_model(
                connector_name@,
                endpoint_path@,
                now_iso@,
                match client_ip {
                    Option::Some(ip) => Option::Some(ip@),
                    Option::None => Option::None,
                },
                attrs_model(headers@),
            ));
        }
        record
    }

    /// One producer endpoint per distinct topic, in first-appearance
    /// order, with the first declaring endpoint's settings; with no
    /// endpoints configured, a configuration error.
    #[verifier::loop_isolation(false)]
    pub fn producer_configs(&self) -> (r: Result<Vec<ProducerConfig>, ConnectorError>)
        ensures
            self.config.endpoints@.len() == 0 <==> (r matches Result::Err(e) && e.kind
                == ErrorKind::Config),
            r matches Result::Ok(cs) ==> producers_model(cs@) == producers_spec(
                self.config.endpoints@,
                0,
            ),
    {
        broadcast use lemma_producers_model_len;

        let ghost es = self.config.endpoints@;
        let n = self.config.endpoints.len();
        if n == 0 {
            return Result::Err(ConnectorError::config(String::from_str("no endpoints")));
        }
        let mut out: Vec<ProducerConfig> = Vec::new();
        proof {
            assert(producers_model(out@) =~= Seq::<(Seq<char>, int, bool)>::empty());
            assert(producers_model(out@) + producers_spec(es, 0) =~= producers_spec(es, 0));
        }
        for k in 0..n
            invariant
                producers_spec(es, 0) == producers_model(out@) + producers_spec(es, k as int),
        {
            let mut seen = false;
            for j in 0..k
                invariant
                    seen == exists|t: int|
                        0 <= t < j && (#[trigger] es[t].danube_topic@)
                            == es[k as int].danube_topic@,
            {
                if crate::text::str_eq(
                    self.config.endpoints[j].danube_topic.as_str(),
                    self.config.endpoints[k].danube_topic.as_str(),
                ) {
                    seen = true;
                }
            }
            if !seen {
                let e = &self.config.endpoints[k];
                let ghost out_before = out@;
                out.push(
                    ProducerConfig {
                        topic: e.danube_topic.clone(),
                        partitions: e.partitions as usize,
                        reliable_dispatch: e.reliable_dispatch,
                    },
                );
                proof {
                    assert(producers_model(out@) =~= producers_model(out_before) + seq![
                        (es[k as int].danube_topic@, es[k as int].partitions as int, es[
                            k as int
                        ].reliable_dispatch),
                    ]);
                    assert((producers_model(out_before) + (seq![
                        (es[k as int].danube_topic@, es[k as int].partitions as int, es[
                            k as int
                        ].reliable_dispatch),
                    ] + producers_spec(es, k + 1))) =~= (producers_model(out@) + producers_spec(
                        es,
                        k + 1,
                    )));
                }
            }
        }
        proof {
            assert(producers_spec(es, n as int) =~= Seq::<(Seq<char>, int, bool)>::empty());
            assert(producers_model(out@) + Seq::<(Seq<char>, int, bool)>::empty()
                =~= producers_model(out@));
        }
        Result::Ok(out)
    }
}

/// Whether an endpoint's topic already occurs before position `k`.
pub open spec fn topic_seen(es: Seq<EndpointConfig>, k: int) -> bool {
    exists|t: int| 0 <= t < k && (#[trigger] es[t].danube_topic@) == es[k].danube_topic@
}

/// The producer endpoints from position `k` on: each first occurrence of
/// a topic yields one entry.
pub open spec fn producers_spec(es: Seq<EndpointConfig>, k: int) -> Seq<(Seq<char>, int, bool)>
    decreases es.len() - k,
{
    if k < 0 || k >= es.len() {
        Seq::empty()
    } else if topic_seen(es, k) {
        producers_spec(es, k + 1)
    } else {
        seq![(es[k].danube_topic@, es[k].partitions as int, es[k].reliable_dispatch)]
            + producers_spec(es, k + 1)
    }
}

/// The model of a producer list.
pub open spec fn producers_model(cs: Seq<ProducerConfig>) -> Seq<(Seq<char>, int, bool)>
    decreases cs,
{
    if cs.len() == 0 {
        Seq::empty()
    } else {
        seq![(cs[0].topic@, cs[0].partitions as int, cs[0].reliable_dispatch)] + producers_model(
            cs.drop_first(),
        )
    }
}

/// `producers_model` maps the sequence pointwise.
pub broadcast proof fn lemma_producers_model_len(cs: Seq<ProducerConfig>)
    ensures
        (#[trigger] producers_model(cs)).len() == cs.len(),
        forall|i: int|
            0 <= i < cs.len() ==> producers_model(cs)[i] == (
            cs[i].topic@,
            cs[i].partitions as int,
            cs[i].reliable_dispatch,
            ),
    decreases cs,
{
    if cs.len() > 0 {
        lemma_producers_model_len(cs.drop_first());
    }
}

} // verus!
