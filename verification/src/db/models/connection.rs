//! Named connection profiles: their types, and how their secrets are masked in
//! responses and kept across updates.
use crate::datetime::UtcDateTime;
use crate::json::{clone_json, distinct_keys, entries_get, get_entry, json_wf, JsonValue, JsonView};
use crate::text::str_eq;
use vstd::prelude::*;

verus! {

/// A named connection profile storing credentials for external systems.
#[derive(Debug)]
pub struct Connection {
    pub name: String,
    pub conn_type: ConnectionType,
    pub description: Option<String>,
    pub config: JsonValue,
    pub created_at: UtcDateTime,
    pub updated_at: UtcDateTime,
}

/// Supported connection protocol types.
#[derive(Debug, Clone, Copy, PartialEq, Eq, Structural)]
pub enum ConnectionType {
    Postgres,
    Mysql,
    Sqlite,
    Ftp,
    Sftp,
    Http,
    Kafka,
    Mqtt,
    Rabbitmq,
    Redis,
    Mongodb,
    Ssh,
    Smtp,
    S3,
}

impl ConnectionType {
    /// The text form of this value (its snake_case name).
    pub open spec fn spec_as_str(self) -> Seq<char> {
        match self {
            ConnectionType::Postgres => "postgres"@,
            ConnectionType::Mysql => "mysql"@,
            ConnectionType::Sqlite => "sqlite"@,
            ConnectionType::Ftp => "ftp"@,
            ConnectionType::Sftp => "sftp"@,
            ConnectionType::Http => "http"@,
            ConnectionType::Kafka => "kafka"@,
            ConnectionType::Mqtt => "mqtt"@,
            ConnectionType::Rabbitmq => "rabbitmq"@,
            ConnectionType::Redis => "redis"@,
            ConnectionType::Mongodb => "mongodb"@,
            ConnectionType::Ssh => "ssh"@,
            ConnectionType::Smtp => "smtp"@,
            ConnectionType::S3 => "s3"@,
        }
    }

    /// The text a connection type is displayed as.
    pub fn as_str(&self) -> (r: &'static str)
        ensures
            r@ == self.spec_as_str(),
    {
        match self {
            ConnectionType::Postgres => "postgres",
            ConnectionType::Mysql => "mysql",
            ConnectionType::Sqlite => "sqlite",
            ConnectionType::Ftp => "ftp",
            ConnectionType::Sftp => "sftp",
            ConnectionType::Http => "http",
            ConnectionType::Kafka => "kafka",
            ConnectionType::Mqtt => "mqtt",
            ConnectionType::Rabbitmq => "rabbitmq",
            ConnectionType::Redis => "redis",
            ConnectionType::Mongodb => "mongodb",
            ConnectionType::Ssh => "ssh",
            ConnectionType::Smtp => "smtp",
            ConnectionType::S3 => "s3",
        }
    }
}

/// Sentinel value used by the frontend for masked fields.
pub const MASK_SENTINEL: &'static str = "********";

/// The fields whose values are secrets.
pub open spec fn is_sensitive(k: Seq<char>) -> bool {
    k == "password"@ || k == "private_key"@ || k == "token"@ || k == "secret_key"@ || k
        == "header_value"@ || k == "access_key"@
}

/// Whether `k` names a secret field.
pub fn is_sensitive_field(k: &str) -> (r: bool)
    ensures
        r == is_sensitive(k@),
{
    str_eq(k, "password") || str_eq(k, "private_key") || str_eq(k, "token") || str_eq(
        k,
        "secret_key",
    ) || str_eq(k, "header_value") || str_eq(k, "access_key")
}

/// An entry as it is shown: a non-empty secret string replaced by the sentinel.
pub open spec fn mask_entry(e: (Seq<char>, JsonView)) -> (Seq<char>, JsonView) {
    if is_sensitive(e.0) && (match e.1 {
        JsonView::String(s) => s.len() > 0,
        _ => false,
    }) {
        (e.0, JsonView::String("********"@))
    } else {
        e
    }
}

/// A configuration as it is shown in responses.
pub open spec fn spec_mask_config(c: JsonView) -> JsonView {
    match c {
        JsonView::Object(es) => JsonView::Object(
            es.map_values(|e: (Seq<char>, JsonView)| mask_entry(e)),
        ),
        _ => c,
    }
}

/// Mask sensitive fields in a connection config for API responses.
pub fn mask_config(config: &JsonValue) -> (r: JsonValue)
    ensures
        r@ == spec_mask_config(config@),
{
    match config {
        JsonValue::Object(entries) => {
            proof {
                crate::json::lemma_entries_view(entries@);
            }
            let ghost ev = crate::json::entries_view(entries@);
            let mut masked: Vec<(String, JsonValue)> = Vec::new();
            let mut i: usize = 0;
            while i < entries.len()
                invariant
                    i <= entries@.len(),
                    ev == crate::json::entries_view(entries@),
                    ev.len() == entries@.len(),
                    forall|j: int|
                        0 <= j < entries@.len() ==> #[trigger] ev[j] == (
                            entries@[j].0@,
                            crate::json::jv(entries@[j].1),
                        ),
                    crate::json::entries_view(masked@) == ev.take(i as int).map_values(
                        |e: (Seq<char>, JsonView)| mask_entry(e),
                    ),
                decreases entries.len() - i,
            {
                let (k, v) = (&entries[i].0, &entries[i].1);
                let secret = match v {
                    JsonValue::String(s) => s.unicode_len() > 0,
                    _ => false,
                };
                let nv = if is_sensitive_field(k.as_str()) && secret {
                    JsonValue::String(MASK_SENTINEL.to_string())
                } else {
                    clone_json(v)
                };
                let ghost before = masked@;
                proof {
                    reveal_strlit("********");
                    assert(nv@ == mask_entry(ev[i as int]).1);
                }
                masked.push((k.clone(), nv));
                proof {
                    assert(masked@.drop_last() =~= before);
                    assert(ev.take(i + 1).map_values(|e: (Seq<char>, JsonView)| mask_entry(e))
                        =~= ev.take(i as int).map_values(|e: (Seq<char>, JsonView)| mask_entry(e)).push(
                        mask_entry(ev[i as int]),
                    ));
                }
                i = i + 1;
            }
            assert(ev.take(entries@.len() as int) =~= ev);
            JsonValue::Object(masked)
        },
        other => clone_json(other),
    }
}

/// An updated entry: the sentinel stands for the value already stored, where
/// there is one.
pub open spec fn merge_entry(old: Seq<(Seq<char>, JsonView)>, e: (Seq<char>, JsonView)) -> (
    Seq<char>,
    JsonView,
) {
    if e.1 == JsonView::String("********"@) {
        match entries_get(old, e.0) {
            Some(ov) => (e.0, ov),
            None => e,
        }
    } else {
        e
    }
}

/// The configuration stored after an update.
pub open spec fn spec_merge_config(existing: JsonView, update: JsonView) -> JsonView {
    match (existing, update) {
        (JsonView::Object(old), JsonView::Object(new)) => JsonView::Object(
            new.map_values(|e: (Seq<char>, JsonView)| merge_entry(old, e)),
        ),
        _ => update,
    }
}

/// Merge an update config with existing config, preserving masked sentinel values.
pub fn merge_config_preserving_secrets(existing: &JsonValue, update: &JsonValue) -> (r: JsonValue)
    ensures
        r@ == spec_merge_config(existing@, update@),
{
    match (existing, update) {
        (JsonValue::Object(old), JsonValue::Object(new)) => {
            proof {
                crate::json::lemma_entries_view(new@);
            }
            let ghost ov = crate::json::entries_view(old@);
            let ghost nv = crate::json::entries_view(new@);
            let mut merged: Vec<(String, JsonValue)> = Vec::new();
            let mut i: usize = 0;
            while i < new.len()
                invariant
                    i <= new@.len(),
                    ov == crate::json::entries_view(old@),
                    nv == crate::json::entries_view(new@),
                    nv.len() == new@.len(),
                    forall|j: int|
                        0 <= j < new@.len() ==> #[trigger] nv[j] == (
                            new@[j].0@,
                            crate::json::jv(new@[j].1),
                        ),
                    crate::json::entries_view(merged@) == nv.take(i as int).map_values(
                        |e: (Seq<char>, JsonView)| merge_entry(ov, e),
                    ),
                decreases new.len() - i,
            {
                let (k, v) = (&new[i].0, &new[i].1);
                let is_mask = match v {
                    JsonValue::String(s) => str_eq(s.as_str(), MASK_SENTINEL),
                    _ => false,
                };
                proof {
                    reveal_strlit("********");
                }
                let nvv = if is_mask {
                    match get_entry(old, k.as_str()) {
                        Some(o) => clone_json(o),
                        None => clone_json(v),
                    }
                } else {
                    clone_json(v)
                };
                let ghost before = merged@;
                merged.push((k.clone(), nvv));
                proof {
                    assert(merged@.drop_last() =~= before);
                    assert(nv.take(i + 1).map_values(|e: (Seq<char>, JsonView)| merge_entry(ov, e))
                        =~= nv.take(i as int).map_values(
                        |e: (Seq<char>, JsonView)| merge_entry(ov, e),
                    ).push(merge_entry(ov, nv[i as int])));
                }
                i = i + 1;
            }
            assert(nv.take(new@.len() as int) =~= nv);
            JsonValue::Object(merged)
        },
        _ => clone_json(update),
    }
}

} // verus!

verus! {

proof fn lemma_entries_get_at(es: Seq<(Seq<char>, JsonView)>, i: int)
    requires
        distinct_keys(es),
        0 <= i < es.len(),
    ensures
        entries_get(es, es[i].0) == Some(es[i].1),
    decreases i,
{
    if i > 0 {
        let t = es.drop_first();
        assert forall|a: int, b: int| 0 <= a < b < t.len() implies #[trigger] t[a].0
            != #[trigger] t[b].0 by {
            assert(t[a] == es[a + 1] && t[b] == es[b + 1]);
        }
        assert(t[i - 1] == es[i]);
        assert(es[0].0 != es[i].0);
        lemma_entries_get_at(t, i - 1);
    }
}

/// Merging a configuration with its masked form gives the configuration back:
/// `merge_config_preserving_secrets(c, mask_config(c))` is `c`, since each
/// `"********"` in the masked form is restored from `c` and every other entry is
/// taken as it is. It holds of every value whose top-level object has no repeated
/// key: so of every `json_wf` value, and of every parsed configuration.
pub proof fn lemma_merge_of_masked_restores(c: JsonView)
    requires
        c matches JsonView::Object(es) ==> distinct_keys(es),
    ensures
        spec_merge_config(c, spec_mask_config(c)) == c,
{
    if let JsonView::Object(es) = c {
        let masked = es.map_values(|e: (Seq<char>, JsonView)| mask_entry(e));
        let merged = masked.map_values(|e: (Seq<char>, JsonView)| merge_entry(es, e));
        assert forall|i: int| 0 <= i < es.len() implies #[trigger] merged[i] == es[i] by {
            lemma_entries_get_at(es, i);
        }
        assert(merged =~= es);
    }
}

/// Masking keeps a configuration free of repeated keys.
pub proof fn lemma_mask_keeps_wf(c: JsonView)
    requires
        json_wf(c),
    ensures
        json_wf(spec_mask_config(c)),
{
    if let JsonView::Object(es) = c {
        let ms = es.map_values(|e: (Seq<char>, JsonView)| mask_entry(e));
        assert forall|i: int, j: int| 0 <= i < j < ms.len() implies #[trigger] ms[i].0
            != #[trigger] ms[j].0 by {
            assert(es[i].0 != es[j].0);
        }
        assert forall|i: int| 0 <= i < ms.len() implies json_wf(#[trigger] ms[i].1) by {
            assert(json_wf(es[i].1));
        }
    }
}

/// Masking twice shows the same as masking once.
pub proof fn lemma_mask_idempotent(c: JsonView)
    ensures
        spec_mask_config(spec_mask_config(c)) == spec_mask_config(c),
{
    if let JsonView::Object(es) = c {
        let once = es.map_values(|e: (Seq<char>, JsonView)| mask_entry(e));
        let twice = once.map_values(|e: (Seq<char>, JsonView)| mask_entry(e));
        assert(twice =~= once);
    }
}

/// A masked configuration shows no secret: each secret field that holds text
/// holds the empty text or the sentinel, and every other entry is unchanged.
pub proof fn lemma_mask_hides_secrets(c: JsonView)
    ensures
        spec_mask_config(c) matches JsonView::Object(ms) ==> c matches JsonView::Object(es) && ms.len()
            == es.len() && forall|i: int|
            0 <= i < ms.len() ==> #[trigger] ms[i].0 == es[i].0 && (if is_sensitive(es[i].0) && es[i].1 is String {
                ms[i].1 == JsonView::String(seq![]) || ms[i].1 == JsonView::String("********"@)
            } else {
                ms[i].1 == es[i].1
            }),
{
    if let JsonView::Object(es) = c {
        let ms = es.map_values(|e: (Seq<char>, JsonView)| mask_entry(e));
        assert forall|i: int| 0 <= i < ms.len() implies #[trigger] ms[i].0 == es[i].0 && (if is_sensitive(es[i].0) && es[i].1 is String {
                ms[i].1 == JsonView::String(seq![]) || ms[i].1 == JsonView::String("********"@)
            } else {
                ms[i].1 == es[i].1
            }) by {
            if let JsonView::String(s) = es[i].1 {
                if s.len() == 0 {
                    assert(s =~= seq![]);
                }
            }
        }
    }
}

} // verus!
