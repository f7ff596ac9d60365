//! The configuration resolver: per-host field resolution with a `default`
//! fallback tier and strict numeric range checking.

use vstd::prelude::*;

verus! {

/// One field of a host entry in the configuration document, reduced to the
/// shapes the resolver distinguishes: absent, a string, an integer, a
/// boolean, or present with some other type.
pub enum FieldValue {
    Missing,
    Str(String),
    Int(i64),
    Bool(bool),
    Other,
}

/// Listener settings. Not yet sourced from the document: always
/// (port 0, no unix socket, no TLS).
#[derive(Debug)]
pub struct ServerConfig {
    pub port: u16,
    pub use_unix_domain_socket: bool,
    pub use_ssl: bool,
}

impl ServerConfig {
    pub fn new(port: u16, use_unix_domain_socket: bool, use_ssl: bool) -> (r: ServerConfig)
        ensures
            r.port == port,
            r.use_unix_domain_socket == use_unix_domain_socket,
            r.use_ssl == use_ssl,
    {
        ServerConfig { port, use_unix_domain_socket, use_ssl }
    }
}

/// The forwarding profile of one virtual host, after resolution.
#[derive(Debug)]
pub struct CacheConfig {
    pub host: String,
    pub origin: String,
    pub expire: u32,
    pub err_expire: u32,
    pub keep_cache_after_shutdown: bool,
}

/// The mathematical value of a [`CacheConfig`].
pub ghost struct ProfileModel {
    pub host: Seq<char>,
    pub origin: Seq<char>,
    pub expire: u32,
    pub err_expire: u32,
    pub keep_cache_after_shutdown: bool,
}

impl View for CacheConfig {
    type V = ProfileModel;

    open spec fn view(&self) -> ProfileModel {
        ProfileModel {
            host: self.host@,
            origin: self.origin@,
            expire: self.expire,
            err_expire: self.err_expire,
            keep_cache_after_shutdown: self.keep_cache_after_shutdown,
        }
    }
}

impl Clone for CacheConfig {
    fn clone(&self) -> (r: CacheConfig)
        ensures
            r@ == self@,
    {
        CacheConfig {
            host: self.host.clone(),
            origin: self.origin.clone(),
            expire: self.expire,
            err_expire: self.err_expire,
            keep_cache_after_shutdown: self.keep_cache_after_shutdown,
        }
    }
}

impl CacheConfig {
    pub fn new(
        host: &str,
        origin: &str,
        expire: u32,
        err_expire: u32,
        keep_cache_after_shutdown: bool,
    ) -> (r: CacheConfig)
        ensures
            r@ == (ProfileModel {
                host: host@,
                origin: origin@,
                expire,
                err_expire,
                keep_cache_after_shutdown,
            }),
    {
        CacheConfig {
            host: String::from_str(host),
            origin: String::from_str(origin),
            expire,
            err_expire,
            keep_cache_after_shutdown,
        }
    }
}

/// Narrows a document-level integer to the unsigned 32-bit range; negative
/// values and values above `u32::MAX` are conversion errors.
pub fn i64tou32(i: i64) -> (r: Result<u32, &'static str>)
    ensures
        0 <= i <= u32::MAX <==> r is Ok,
        r matches Ok(v) ==> v == i,
{
    if i <= u32::MAX as i64 && i >= 0 {
        Ok(i as u32)
    } else {
        Err("error!")
    }
}

/// Fallback used for `expire` when neither the host nor `default` carries a
/// usable integer.
pub const DEFAULT_EXPIRE: u32 = 86400;

/// Fallback used for `err_expire` when neither the host nor `default`
/// carries a usable integer.
pub const DEFAULT_ERR_EXPIRE: u32 = 300;

/// The message a failed field resolution produces: it names the offending
/// host and field.
pub open spec fn parse_error_msg(host: Seq<char>, field: Seq<char>) -> Seq<char> {
    "parse error:\n\thost:"@ + host + "\n\tstep:"@ + field
}

fn parse_error_string(host: &str, field: &str) -> (r: String)
    ensures
        r@ == parse_error_msg(host@, field@),
{
    let mut s = String::from_str("parse error:\n\thost:");
    s.append(host);
    s.append("\n\tstep:");
    s.append(field);
    proof {
        assert(s@ =~= parse_error_msg(host@, field@));
    }
    s
}

/// Two-tier resolution of an integer field: the host's own value wins; an
/// absent host value falls back to the `default` tier; an absent or
/// wrong-typed `default` value falls back to the constant. A present but
/// wrong-typed or out-of-range value on the host tier, or an out-of-range
/// integer on the `default` tier, is a hard error (`None`).
pub open spec fn spec_u32_field(hostv: FieldValue, defv: FieldValue, fallback: u32) -> Option<u32> {
    match hostv {
        FieldValue::Int(i) => if 0 <= i && i <= u32::MAX { Some(i as u32) } else { None },
        FieldValue::Missing => match defv {
            FieldValue::Int(i) => if 0 <= i && i <= u32::MAX { Some(i as u32) } else { None },
            _ => Some(fallback),
        },
        _ => None,
    }
}

/// Two-tier resolution of the boolean field: unlike the integer fields, a
/// wrong-typed value at either tier is treated as absent, never as an error.
pub open spec fn spec_bool_field(hostv: FieldValue, defv: FieldValue, fallback: bool) -> bool {
    match hostv {
        FieldValue::Bool(b) => b,
        _ => match defv {
            FieldValue::Bool(b) => b,
            _ => fallback,
        },
    }
}

pub fn resolve_u32_field(hostv: &FieldValue, defv: &FieldValue, fallback: u32) -> (r: Option<
    u32,
>)
    ensures
        r == spec_u32_field(*hostv, *defv, fallback),
{
    match hostv {
        FieldValue::Int(i) => match i64tou32(*i) {
            Ok(v) => Some(v),
            Err(_) => None,
        },
        FieldValue::Missing => match defv {
            FieldValue::Int(i) => match i64tou32(*i) {
                Ok(v) => Some(v),
                Err(_) => None,
            },
            _ => Some(fallback),
        },
        _ => None,
    }
}

pub fn resolve_bool_field(hostv: &FieldValue, defv: &FieldValue, fallback: bool) -> (r: bool)
    ensures
        r == spec_bool_field(*hostv, *defv, fallback),
{
    match hostv {
        FieldValue::Bool(b) => *b,
        _ => match defv {
            FieldValue::Bool(b) => *b,
            _ => fallback,
        },
    }
}

/// One host's entry in the configuration document, reduced to the fields the
/// resolver reads.
pub struct HostEntry {
    pub name: String,
    pub origin: FieldValue,
    pub expire: FieldValue,
    pub err_expire: FieldValue,
    pub keep_cache_after_shutdown: FieldValue,
}

/// The `hosts` mapping of the document, in document order; a `default`
/// entry, if any, stands among the others.
pub struct HostsDoc {
    pub entries: Vec<HostEntry>,
}

/// Resolution of one host entry against the `default` tier's field values:
/// `origin` must be a string on the entry itself; the expiry fields follow
/// [`spec_u32_field`]; the boolean follows [`spec_bool_field`]. An error
/// names the host and the first offending field, in the order origin,
/// expire, err_expire.
pub open spec fn spec_resolve_host(
    e: HostEntry,
    d_expire: FieldValue,
    d_err_expire: FieldValue,
    d_keep: FieldValue,
) -> Result<ProfileModel, Seq<char>> {
    match e.origin {
        FieldValue::Str(o) => match spec_u32_field(e.expire, d_expire, DEFAULT_EXPIRE) {
            Some(x) => match spec_u32_field(e.err_expire, d_err_expire, DEFAULT_ERR_EXPIRE) {
                Some(ex) => Ok(
                    ProfileModel {
                        host: e.name@,
                        origin: o@,
                        expire: x,
                        err_expire: ex,
                        keep_cache_after_shutdown: spec_bool_field(
                            e.keep_cache_after_shutdown,
                            d_keep,
                            false,
                        ),
                    },
                ),
                None => Err(parse_error_msg(e.name@, "err_expire"@)),
            },
            None => Err(parse_error_msg(e.name@, "expire"@)),
        },
        _ => Err(parse_error_msg(e.name@, "origin"@)),
    }
}

pub fn resolve_host(
    e: &HostEntry,
    d_expire: &FieldValue,
    d_err_expire: &FieldValue,
    d_keep: &FieldValue,
) -> (r: Result<CacheConfig, String>)
    ensures
        r is Ok <==> spec_resolve_host(*e, *d_expire, *d_err_expire, *d_keep) is Ok,
        r matches Ok(c) ==> c@ == spec_resolve_host(*e, *d_expire, *d_err_expire, *d_keep)->Ok_0,
        r matches Err(m) ==> m@ == spec_resolve_host(
            *e,
            *d_expire,
            *d_err_expire,
            *d_keep,
        )->Err_0,
{
    let origin: &String = match &e.origin {
        FieldValue::Str(o) => o,
        _ => {
            return Err(parse_error_string(e.name.as_str(), "origin"));
        },
    };
    let expire: u32 = match resolve_u32_field(&e.expire, d_expire, DEFAULT_EXPIRE) {
        Some(v) => v,
        None => {
            return Err(parse_error_string(e.name.as_str(), "expire"));
        },
    };
    let err_expire: u32 = match resolve_u32_field(&e.err_expire, d_err_expire, DEFAULT_ERR_EXPIRE) {
        Some(v) => v,
        None => {
            return Err(parse_error_string(e.name.as_str(), "err_expire"));
        },
    };
    let keep = resolve_bool_field(&e.keep_cache_after_shutdown, d_keep, false);
    Ok(CacheConfig::new(e.name.as_str(), origin.as_str(), expire, err_expire, keep))
}

/// No two entries carry the same host name.
pub open spec fn unique_hosts(s: Seq<CacheConfig>) -> bool {
    forall|i: int, j: int| 0 <= i < j < s.len() ==> s[i]@.host != s[j]@.host
}

/// The profiles held by a sequence of entries, later entries overwriting
/// earlier ones with the same host name.
pub open spec fn seq_profiles(s: Seq<CacheConfig>) -> Map<Seq<char>, ProfileModel>
    decreases s.len(),
{
    if s.len() == 0 {
        Map::empty()
    } else {
        seq_profiles(s.drop_last()).insert(s.last()@.host, s.last()@)
    }
}

/// The read-only mapping from virtual host name to forwarding profile.
/// Built once by the resolver; host names are unique.
#[derive(Debug)]
pub struct ConfigMap {
    entries: Vec<CacheConfig>,
}

impl ConfigMap {
    /// The entries in insertion order.
    pub closed spec fn entries_seq(self) -> Seq<CacheConfig> {
        self.entries@
    }

    /// The mathematical value of the map.
    pub open spec fn as_map(self) -> Map<Seq<char>, ProfileModel> {
        seq_profiles(self.entries_seq())
    }

    /// Host names are unique.
    pub open spec fn wf(self) -> bool {
        unique_hosts(self.entries_seq())
    }

    pub fn new() -> (r: ConfigMap)
        ensures
            r.wf(),
            r.as_map() == Map::<Seq<char>, ProfileModel>::empty(),
            r.entries_seq() == Seq::<CacheConfig>::empty(),
    {
        ConfigMap { entries: Vec::new() }
    }

    /// How many hosts are configured.
    pub fn len(&self) -> (r: usize)
        ensures
            r == self.entries_seq().len(),
    {
        self.entries.len()
    }

    /// The entry at one position, for callers that walk the map.
    pub fn entry_at(&self, i: usize) -> (r: &CacheConfig)
        requires
            i < self.entries_seq().len(),
        ensures
            *r == self.entries_seq()[i as int],
    {
        &self.entries[i]
    }

    fn position_of(&self, host: &String) -> (r: Option<usize>)
        ensures
            match r {
                Some(i) => i < self.entries_seq().len() && self.entries_seq()[i as int]@.host
                    == host@,
                None => forall|i: int|
                    0 <= i < self.entries_seq().len() ==> self.entries_seq()[i]@.host != host@,
            },
    {
        let mut i: usize = 0;
        while i < self.entries.len()
            invariant
                i <= self.entries@.len(),
                forall|j: int| 0 <= j < i ==> self.entries@[j]@.host != host@,
            decreases self.entries@.len() - i,
        {
            if self.entries[i].host == *host {
                return Some(i);
            }
            i += 1;
        }
        None
    }

    /// Inserts a profile under its host name; an existing entry with the
    /// same name is replaced.
    pub fn insert(&mut self, c: CacheConfig)
        requires
            old(self).wf(),
        ensures
            final(self).wf(),
            final(self).as_map() == old(self).as_map().insert(c@.host, c@),
    {
        let ghost pre = self.entries@;
        proof {
            assert(unique_hosts(pre));
        }
        match self.position_of(&c.host) {
            Some(i) => {
                proof {
                    lemma_seq_profiles_remove(pre, i as int);
                }
                self.entries.remove(i);
                self.entries.push(c);
                proof {
                    assert(self.entries@.drop_last() =~= pre.remove(i as int));
                    assert(self.as_map() =~= seq_profiles(pre).insert(c@.host, c@));
                    assert forall|x: int, y: int|
                        0 <= x < y < self.entries@.len() implies self.entries@[x]@.host
                        != self.entries@[y]@.host by {
                        assert(self.entries@[x] == if x < i {
                            pre[x]
                        } else {
                            pre[x + 1]
                        });
                        if y == self.entries@.len() - 1 {
                            assert(self.entries@[y] == c);
                            assert(c@.host == pre[i as int]@.host);
                        } else {
                            assert(self.entries@[y] == if y < i {
                                pre[y]
                            } else {
                                pre[y + 1]
                            });
                        }
                    }
                }
            },
            None => {
                self.entries.push(c);
                proof {
                    assert(self.entries@.drop_last() =~= pre);
                }
            },
        }
    }

    /// Looks a bare host name up; `Some` exactly when the host is
    /// configured, and then the configured profile.
    pub fn get(&self, host: &str) -> (r: Option<&CacheConfig>)
        requires
            self.wf(),
        ensures
            match r {
                Some(c) => self.as_map().contains_key(host@) && c@ == self.as_map()[host@],
                None => !self.as_map().contains_key(host@),
            },
    {
        let key = String::from_str(host);
        proof {
            lemma_seq_profiles_keys(self.entries@, host@);
        }
        match self.position_of(&key) {
            Some(i) => {
                proof {
                    lemma_seq_profiles_at(self.entries@, i as int);
                }
                Some(&self.entries[i])
            },
            None => None,
        }
    }
}

/// A key is in the profile map exactly when some entry carries it.
proof fn lemma_seq_profiles_keys(s: Seq<CacheConfig>, k: Seq<char>)
    ensures
        seq_profiles(s).contains_key(k) <==> exists|i: int| 0 <= i < s.len() && s[i]@.host == k,
    decreases s.len(),
{
    if s.len() > 0 {
        lemma_seq_profiles_keys(s.drop_last(), k);
        if seq_profiles(s).contains_key(k) && s.last()@.host != k {
            let i = choose|i: int| 0 <= i < s.drop_last().len() && s.drop_last()[i]@.host == k;
            assert(s[i]@.host == k);
        }
        if exists|i: int| 0 <= i < s.len() && s[i]@.host == k {
            let i = choose|i: int| 0 <= i < s.len() && s[i]@.host == k;
            if i < s.len() - 1 {
                assert(s.drop_last()[i]@.host == k);
            }
        }
    }
}

/// Under unique host names, the map sends each entry's host name to that
/// entry's profile.
proof fn lemma_seq_profiles_at(s: Seq<CacheConfig>, i: int)
    requires
        0 <= i < s.len(),
        unique_hosts(s),
    ensures
        seq_profiles(s).contains_key(s[i]@.host),
        seq_profiles(s)[s[i]@.host] == s[i]@,
    decreases s.len(),
{
    if i == s.len() - 1 {
    } else {
        assert(unique_hosts(s.drop_last()));
        lemma_seq_profiles_at(s.drop_last(), i);
        assert(s.drop_last()[i] == s[i]);
        assert(s[i]@.host != s.last()@.host);
    }
}

/// Removing the entry that carries a key removes that key, when host names
/// are unique.
proof fn lemma_seq_profiles_remove(s: Seq<CacheConfig>, i: int)
    requires
        0 <= i < s.len(),
        unique_hosts(s),
    ensures
        seq_profiles(s.remove(i)) =~= seq_profiles(s).remove(s[i]@.host),
    decreases s.len(),
{
    if i == s.len() - 1 {
        assert(s.remove(i) =~= s.drop_last());
        lemma_seq_profiles_keys(s.drop_last(), s[i]@.host);
        assert(forall|j: int| 0 <= j < s.drop_last().len() ==> s.drop_last()[j] == s[j]);
        assert(!seq_profiles(s.drop_last()).contains_key(s[i]@.host));
        assert(seq_profiles(s.drop_last()) =~= seq_profiles(s.drop_last()).insert(
            s.last()@.host,
            s.last()@,
        ).remove(s[i]@.host));
    } else {
        assert(unique_hosts(s.drop_last()));
        lemma_seq_profiles_remove(s.drop_last(), i);
        assert(s.remove(i).drop_last() =~= s.drop_last().remove(i));
        assert(s.remove(i).last() == s.last());
        assert(s[i]@.host != s.last()@.host);
        assert(s.drop_last()[i] == s[i]);
    }
}

/// The `default` tier: the field values of the first entry named `default`,
/// or absent values when the document has no such entry.
pub open spec fn spec_default_fields(entries: Seq<HostEntry>) -> (FieldValue, FieldValue, FieldValue)
    decreases entries.len(),
{
    if entries.len() == 0 {
        (FieldValue::Missing, FieldValue::Missing, FieldValue::Missing)
    } else if entries[0].name@ == "default"@ {
        (entries[0].expire, entries[0].err_expire, entries[0].keep_cache_after_shutdown)
    } else {
        spec_default_fields(entries.drop_first())
    }
}

proof fn lemma_default_fields_at(entries: Seq<HostEntry>, i: int)
    requires
        0 <= i < entries.len(),
        entries[i].name@ == "default"@,
        forall|j: int| 0 <= j < i ==> entries[j].name@ != "default"@,
    ensures
        spec_default_fields(entries) == (
            entries[i].expire,
            entries[i].err_expire,
            entries[i].keep_cache_after_shutdown,
        ),
    decreases i,
{
    if i > 0 {
        lemma_default_fields_at(entries.drop_first(), i - 1);
    }
}

proof fn lemma_default_fields_none(entries: Seq<HostEntry>)
    requires
        forall|j: int| 0 <= j < entries.len() ==> entries[j].name@ != "default"@,
    ensures
        spec_default_fields(entries) == (
            FieldValue::Missing,
            FieldValue::Missing,
            FieldValue::Missing,
        ),
    decreases entries.len(),
{
    if entries.len() > 0 {
        lemma_default_fields_none(entries.drop_first());
    }
}

/// Resolution of the entries from position `i` on, against the `default`
/// tier's field values, folding the resolved profiles into `acc`; entries
/// named `default` are skipped, later entries overwrite earlier ones, and
/// the first failing entry's message is the document's error.
pub open spec fn spec_resolve_from(
    entries: Seq<HostEntry>,
    i: int,
    d_expire: FieldValue,
    d_err_expire: FieldValue,
    d_keep: FieldValue,
    acc: Map<Seq<char>, ProfileModel>,
) -> Result<Map<Seq<char>, ProfileModel>, Seq<char>>
    decreases entries.len() - i,
{
    if i < 0 || i >= entries.len() {
        Ok(acc)
    } else if entries[i].name@ == "default"@ {
        spec_resolve_from(entries, i + 1, d_expire, d_err_expire, d_keep, acc)
    } else {
        match spec_resolve_host(entries[i], d_expire, d_err_expire, d_keep) {
            Ok(p) => spec_resolve_from(
                entries,
                i + 1,
                d_expire,
                d_err_expire,
                d_keep,
                acc.insert(entries[i].name@, p),
            ),
            Err(m) => Err(m),
        }
    }
}

/// What resolving a whole document yields: either the host map, or the
/// first failing entry's message.
pub open spec fn spec_resolve_doc(entries: Seq<HostEntry>) -> Result<
    Map<Seq<char>, ProfileModel>,
    Seq<char>,
> {
    spec_resolve_from(
        entries,
        0,
        spec_default_fields(entries).0,
        spec_default_fields(entries).1,
        spec_default_fields(entries).2,
        Map::empty(),
    )
}

fn find_default(entries: &Vec<HostEntry>) -> (r: Option<usize>)
    ensures
        match r {
            Some(i) => i < entries@.len() && entries@[i as int].name@ == "default"@ && (forall|
                j: int,
            |
                0 <= j < i ==> entries@[j].name@ != "default"@),
            None => forall|j: int| 0 <= j < entries@.len() ==> entries@[j].name@ != "default"@,
        },
{
    let key = String::from_str("default");
    let mut i: usize = 0;
    while i < entries.len()
        invariant
            i <= entries@.len(),
            key@ == "default"@,
            forall|j: int| 0 <= j < i ==> entries@[j].name@ != "default"@,
        decreases entries@.len() - i,
    {
        if entries[i].name == key {
            return Some(i);
        }
        i += 1;
    }
    None
}

/// Resolves every host entry of a document (the `default` entry is only a
/// fallback source, never itself part of the map). Errors on the first
/// entry whose resolution fails, with a message naming host and field.
pub fn resolve_hosts(doc: &HostsDoc) -> (r: Result<ConfigMap, String>)
    ensures
        r is Ok <==> spec_resolve_doc(doc.entries@) is Ok,
        r matches Ok(cm) ==> cm.wf() && cm.as_map() == spec_resolve_doc(doc.entries@)->Ok_0,
        r matches Err(m) ==> m@ == spec_resolve_doc(doc.entries@)->Err_0,
{
    let missing = FieldValue::Missing;
    let default_idx = find_default(&doc.entries);
    let (d_expire, d_err_expire, d_keep): (&FieldValue, &FieldValue, &FieldValue) =
        match default_idx {
        Some(i) => {
            proof {
                lemma_default_fields_at(doc.entries@, i as int);
            }
            let d = &doc.entries[i];
            (&d.expire, &d.err_expire, &d.keep_cache_after_shutdown)
        },
        None => {
            proof {
                lemma_default_fields_none(doc.entries@);
            }
            (&missing, &missing, &missing)
        },
    };
    let default_key = String::from_str("default");
    let mut cm = ConfigMap::new();
    let mut i: usize = 0;
    while i < doc.entries.len()
        invariant
            i <= doc.entries@.len(),
            cm.wf(),
            default_key@ == "default"@,
            spec_default_fields(doc.entries@) == (*d_expire, *d_err_expire, *d_keep),
            spec_resolve_doc(doc.entries@) == spec_resolve_from(
                doc.entries@,
                i as int,
                *d_expire,
                *d_err_expire,
                *d_keep,
                cm.as_map(),
            ),
        decreases doc.entries@.len() - i,
    {
        let e = &doc.entries[i];
        if !(e.name == default_key) {
            match resolve_host(e, d_expire, d_err_expire, d_keep) {
                Ok(c) => {
                    cm.insert(c);
                },
                Err(m) => {
                    return Err(m);
                },
            }
        }
        i += 1;
    }
    Ok(cm)
}

/// The whole configuration: listener settings plus the host map.
#[derive(Debug)]
pub struct Config {
    pub server: ServerConfig,
    pub cache: ConfigMap,
}

/// Builds the configuration from an extracted document: the resolved host
/// map, and listener settings fixed to (port 0, no unix socket, no TLS) —
/// the listener is not yet sourced from the document.
pub fn load_config_doc(doc: &HostsDoc) -> (r: Result<Config, String>)
    ensures
        r is Ok <==> spec_resolve_doc(doc.entries@) is Ok,
        r matches Ok(c) ==> c.cache.wf() && c.cache.as_map() == spec_resolve_doc(
            doc.entries@,
        )->Ok_0 && c.server.port == 0 && !c.server.use_unix_domain_socket && !c.server.use_ssl,
        r matches Err(m) ==> m@ == spec_resolve_doc(doc.entries@)->Err_0,
{
    let cache = match resolve_hosts(doc) {
        Ok(cm) => cm,
        Err(m) => {
            return Err(m);
        },
    };
    Ok(Config { server: ServerConfig::new(0, false, false), cache })
}

/// The four candidate configuration paths, relative to the base directory,
/// in probing priority order: the two dotfiles first, then the two names
/// inside the config subdirectory.
pub open spec fn spec_candidates() -> Seq<Seq<char>> {
    seq![
        ".schnecke.yml"@,
        ".schnecke.yaml"@,
        ".config/schnecke.yml"@,
        ".config/schnecke.yaml"@,
    ]
}

pub fn config_path_candidates() -> (r: Vec<String>)
    ensures
        r.deep_view() == spec_candidates(),
{
    let mut v: Vec<String> = Vec::new();
    v.push(String::from_str(".schnecke.yml"));
    v.push(String::from_str(".schnecke.yaml"));
    v.push(String::from_str(".config/schnecke.yml"));
    v.push(String::from_str(".config/schnecke.yaml"));
    proof {
        assert(v.deep_view() =~~= spec_candidates());
    }
    v
}

/// The error named when no candidate file exists: `missing` followed by
/// every probed path.
pub open spec fn spec_missing_msg(cs: Seq<Seq<char>>) -> Seq<char>
    decreases cs.len(),
{
    if cs.len() == 0 {
        "missing"@
    } else {
        spec_missing_msg(cs.drop_last()) + " "@ + cs.last()
    }
}

/// Picks the configuration path: the first candidate that exists wins
/// (`exists` reports, for each candidate in order, whether the file is
/// there). When none exists, the error lists all probed paths.
pub fn collect_config_path(candidates: &Vec<String>, exists: &Vec<bool>) -> (r: Result<
    String,
    String,
>)
    requires
        candidates@.len() == exists@.len(),
    ensures
        r matches Ok(p) ==> exists|i: int|
            0 <= i < exists@.len() && exists@[i] && (forall|j: int| 0 <= j < i ==> !exists@[j])
                && p@ == candidates.deep_view()[i],
        r is Err <==> forall|i: int| 0 <= i < exists@.len() ==> !exists@[i],
        r matches Err(m) ==> m@ == spec_missing_msg(candidates.deep_view()),
{
    let mut i: usize = 0;
    while i < candidates.len()
        invariant
            candidates@.len() == exists@.len(),
            i <= exists@.len(),
            forall|j: int| 0 <= j < i ==> !exists@[j],
        decreases candidates@.len() - i,
    {
        if exists[i] {
            return Ok(candidates[i].clone());
        }
        i += 1;
    }
    let mut msg = String::from_str("missing");
    let mut k: usize = 0;
    while k < candidates.len()
        invariant
            candidates@.len() == exists@.len(),
            k <= candidates@.len(),
            msg@ == spec_missing_msg(candidates.deep_view().take(k as int)),
        decreases candidates@.len() - k,
    {
        msg.append(" ");
        msg.append(candidates[k].as_str());
        proof {
            assert(candidates.deep_view().take(k + 1).drop_last() =~~= candidates.deep_view().take(
                k as int,
            ));
            assert(msg@ =~= spec_missing_msg(candidates.deep_view().take(k + 1)));
        }
        k += 1;
    }
    proof {
        assert(candidates.deep_view().take(candidates@.len() as int) =~~= candidates.deep_view());
    }
    Err(msg)
}

} // verus!
