//! Extraction of the `hosts` document from YAML text into the plain
//! [`HostsDoc`] model that the resolver works on.
//!
//! The YAML values themselves are opaque here; each step through them is a
//! small trusted wrapper around one `yaml_rust` operation, whose result —
//! a function of its arguments alone — is given a name. Everything after
//! the parse is verified: [`extract_hosts_doc`] is pinned to
//! [`spec_extract`] over those names, and [`load_config_str`] to the
//! composition with [`crate::config::spec_resolve_doc`].

use crate::config::{Config, FieldValue, HostEntry, HostsDoc, load_config_doc};
use vstd::prelude::*;
use yaml_rust::{Yaml, YamlLoader};

verus! {

#[verifier::external_type_specification]
#[verifier::external_body]
pub struct ExYaml(Yaml);

/// The first document of the parsed YAML stream, or `None` when the text
/// does not parse or holds no document.
pub uninterp spec fn first_doc_of(text: Seq<char>) -> Option<Yaml>;

/// The value a YAML node holds under a key: `BadValue` for a missing key
/// or a non-mapping node.
pub uninterp spec fn at_of(node: Yaml, key: Seq<char>) -> Yaml;

/// The entries of a YAML mapping, in insertion order with unique keys, or
/// `None` when the node is no mapping.
pub uninterp spec fn entries_of(node: Yaml) -> Option<Seq<(Yaml, Yaml)>>;

/// The shape a YAML value has, among those the resolver distinguishes.
pub uninterp spec fn class_of(y: Yaml) -> FieldValue;

/// Relies on `yaml_rust::YamlLoader::load_from_str`, a function of the
/// text alone; its first document is named [`first_doc_of`].
#[verifier::external_body]
fn parse_first_doc(text: &str) -> (r: Option<Yaml>)
    ensures
        r == first_doc_of(text@),
{
    YamlLoader::load_from_str(text).ok().and_then(|docs| docs.into_iter().next())
}

/// Relies on `yaml_rust`'s `Index<&str>` for `Yaml`, a function of node
/// and key alone; its result is named [`at_of`].
#[verifier::external_body]
fn yaml_at(node: &Yaml, key: &str) -> (r: Yaml)
    ensures
        r == at_of(*node, key@),
{
    node[key].clone()
}

/// Relies on iterating a `Yaml::Hash` (a `LinkedHashMap`: unique keys,
/// insertion order), a function of the node alone; what the mapping holds
/// is named [`entries_of`].
#[verifier::external_body]
fn yaml_hash_entries(node: &Yaml) -> (r: Option<Vec<(Yaml, Yaml)>>)
    ensures
        r is Some <==> entries_of(*node) is Some,
        r matches Some(v) ==> entries_of(*node) == Some(v@),
{
    match node {
        Yaml::Hash(h) => Some(h.iter().map(|(k, v)| (k.clone(), v.clone())).collect()),
        _ => None,
    }
}

/// Relies on matching the `yaml_rust::Yaml` variants, one arm each, a
/// function of the value alone; the shape is named [`class_of`].
#[verifier::external_body]
fn yaml_classify(y: &Yaml) -> (r: FieldValue)
    ensures
        r == class_of(*y),
{
    match y {
        Yaml::String(s) => FieldValue::Str(s.clone()),
        Yaml::Integer(i) => FieldValue::Int(*i),
        Yaml::Boolean(b) => FieldValue::Bool(*b),
        Yaml::BadValue => FieldValue::Missing,
        _ => FieldValue::Other,
    }
}

fn entry_field(entry: &Yaml, key: &str) -> (r: FieldValue)
    ensures
        r == class_of(at_of(*entry, key@)),
{
    let v = yaml_at(entry, key);
    yaml_classify(&v)
}

/// The model entry one mapping entry reduces to: the string key as the
/// host name, and the classified shapes of the four fields the resolver
/// reads.
pub open spec fn spec_entry_of(k: Yaml, v: Yaml) -> HostEntry {
    HostEntry {
        name: class_of(k)->Str_0,
        origin: class_of(at_of(v, "origin"@)),
        expire: class_of(at_of(v, "expire"@)),
        err_expire: class_of(at_of(v, "err_expire"@)),
        keep_cache_after_shutdown: class_of(at_of(v, "keep_cache_after_shutdown"@)),
    }
}

/// Reduction of the mapping's entries from position `i` on, folding the
/// model entries into `acc`; the first non-string key is the error.
pub open spec fn spec_extract_from(
    raw: Seq<(Yaml, Yaml)>,
    i: int,
    acc: Seq<HostEntry>,
) -> Result<Seq<HostEntry>, Seq<char>>
    decreases raw.len() - i,
{
    if i < 0 || i >= raw.len() {
        Ok(acc)
    } else if class_of(raw[i].0) is Str {
        spec_extract_from(raw, i + 1, acc.push(spec_entry_of(raw[i].0, raw[i].1)))
    } else {
        Err("invalid host key"@)
    }
}

/// What reducing YAML text to the document model yields: unparsable text,
/// a missing `hosts` mapping and a non-string host key each surface as
/// their own error; otherwise the model entries, in document order.
pub open spec fn spec_extract(text: Seq<char>) -> Result<Seq<HostEntry>, Seq<char>> {
    match first_doc_of(text) {
        None => Err("can't parse config file"@),
        Some(doc) => match entries_of(at_of(doc, "hosts"@)) {
            None => Err("missing hosts mapping"@),
            Some(raw) => spec_extract_from(raw, 0, Seq::empty()),
        },
    }
}

/// Reduces YAML text to the plain document model, exactly as
/// [`spec_extract`] says.
pub fn extract_hosts_doc(text: &str) -> (r: Result<HostsDoc, String>)
    ensures
        r is Ok <==> spec_extract(text@) is Ok,
        r matches Ok(d) ==> d.entries@ == spec_extract(text@)->Ok_0,
        r matches Err(m) ==> m@ == spec_extract(text@)->Err_0,
{
    let doc = match parse_first_doc(text) {
        Some(d) => d,
        None => {
            return Err(String::from_str("can't parse config file"));
        },
    };
    let hosts = yaml_at(&doc, "hosts");
    let raw = match yaml_hash_entries(&hosts) {
        Some(e) => e,
        None => {
            return Err(String::from_str("missing hosts mapping"));
        },
    };
    let mut entries: Vec<HostEntry> = Vec::new();
    let mut i: usize = 0;
    while i < raw.len()
        invariant
            i <= raw@.len(),
            spec_extract(text@) == spec_extract_from(raw@, i as int, entries@),
        decreases raw@.len() - i,
    {
        let (k, v) = &raw[i];
        let name = match yaml_classify(k) {
            FieldValue::Str(n) => n,
            _ => {
                return Err(String::from_str("invalid host key"));
            },
        };
        entries.push(
            HostEntry {
                name,
                origin: entry_field(v, "origin"),
                expire: entry_field(v, "expire"),
                err_expire: entry_field(v, "err_expire"),
                keep_cache_after_shutdown: entry_field(v, "keep_cache_after_shutdown"),
            },
        );
        i += 1;
    }
    Ok(HostsDoc { entries })
}

/// Loads the configuration from YAML text: the extraction pinned by
/// [`spec_extract`], then the resolution pinned by
/// [`crate::config::spec_resolve_doc`]; a success carries the resolved
/// host map and the fixed listener settings (port 0, no unix socket, no
/// TLS), an error the failing stage's message.
pub fn load_config_str(text: &str) -> (r: Result<Config, String>)
    ensures
        r is Ok <==> spec_extract(text@) is Ok && crate::config::spec_resolve_doc(
            spec_extract(text@)->Ok_0,
        ) is Ok,
        r matches Ok(c) ==> c.cache.wf() && c.cache.as_map() == crate::config::spec_resolve_doc(
            spec_extract(text@)->Ok_0,
        )->Ok_0 && c.server.port == 0 && !c.server.use_unix_domain_socket && !c.server.use_ssl,
        r matches Err(m) ==> m@ == (if spec_extract(text@) is Err {
            spec_extract(text@)->Err_0
        } else {
            crate::config::spec_resolve_doc(spec_extract(text@)->Ok_0)->Err_0
        }),
{
    match extract_hosts_doc(text) {
        Ok(doc) => load_config_doc(&doc),
        Err(m) => Err(m),
    }
}

} // verus!
