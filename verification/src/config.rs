//! Settings: string options keyed by name, and the configuration records of
//! the server and the client.

use vstd::prelude::*;
use crate::text::{decimal, decimal_spec, str_eq};

verus! {

/// The view of one option: its key and its value.
pub open spec fn entry_view(e: (String, String)) -> (Seq<char>, Seq<char>) {
    (e.0@, e.1@)
}

/// The views of the entries `s`, in order.
pub open spec fn entry_views(s: Seq<(String, String)>) -> Seq<(Seq<char>, Seq<char>)> {
    s.map_values(|e: (String, String)| entry_view(e))
}

/// No key occurs twice among `s`.
pub open spec fn keys_distinct(s: Seq<(Seq<char>, Seq<char>)>) -> bool {
    forall|i: int, j: int| 0 <= i < s.len() && 0 <= j < s.len() && i != j ==> s[i].0 != s[j].0
}

/// The value stored under `key` in `s`, if any.
pub open spec fn lookup(s: Seq<(Seq<char>, Seq<char>)>, key: Seq<char>) -> Option<Seq<char>> {
    if exists|i: int| 0 <= i < s.len() && s[i].0 == key {
        let i = choose|i: int| 0 <= i < s.len() && s[i].0 == key;
        Some(s[i].1)
    } else {
        None
    }
}

/// `s` after storing `value` under `key`: an existing entry for `key` gets the
/// new value in place, otherwise the entry goes at the end.
pub open spec fn insert_spec(s: Seq<(Seq<char>, Seq<char>)>, key: Seq<char>, value: Seq<char>) -> Seq<(Seq<char>, Seq<char>)> {
    if exists|i: int| 0 <= i < s.len() && s[i].0 == key {
        let i = choose|i: int| 0 <= i < s.len() && s[i].0 == key;
        s.update(i, (key, value))
    } else {
        s.push((key, value))
    }
}

/// String options keyed by name, such as the settings of an input or of a
/// delivery target. No key occurs twice; entries keep the order in which their
/// keys were first stored.
pub struct Options {
    entries: Vec<(String, String)>,
}

impl View for Options {
    type V = Seq<(Seq<char>, Seq<char>)>;

    closed spec fn view(&self) -> Seq<(Seq<char>, Seq<char>)> {
        entry_views(self.entries@)
    }
}

impl Options {
    #[verifier::type_invariant]
    spec fn keys_are_distinct(self) -> bool {
        keys_distinct(self@)
    }

    /// No options.
    pub fn new() -> (o: Self)
        ensures
            o@ == Seq::<(Seq<char>, Seq<char>)>::empty(),
    {
        let o = Options { entries: Vec::new() };
        assert(o@ =~= Seq::<(Seq<char>, Seq<char>)>::empty());
        o
    }

    /// The number of options.
    pub fn len(&self) -> (n: usize)
        ensures
            n == self@.len(),
    {
        self.entries.len()
    }

    /// The key and the value of the entry at `i`.
    pub fn entry(&self, i: usize) -> (r: (&String, &String))
        requires
            i < self@.len(),
        ensures
            (r.0@, r.1@) == self@[i as int],
    {
        (&self.entries[i].0, &self.entries[i].1)
    }

    /// The position of `key` among the entries, if it is stored.
    fn position(&self, key: &str) -> (r: Option<usize>)
        ensures
            match r {
                Some(i) => i < self@.len() && self@[i as int].0 == key@,
                None => forall|i: int| 0 <= i < self@.len() ==> self@[i].0 != key@,
            },
    {
        let n = self.entries.len();
        for i in 0..n
            invariant
                n == self@.len(),
                n == self.entries@.len(),
                forall|j: int| 0 <= j < i ==> self@[j].0 != key@,
        {
            if str_eq(self.entries[i].0.as_str(), key) {
                return Some(i);
            }
        }
        None
    }

    /// The value stored under `key`, if any.
    pub fn get(&self, key: &str) -> (r: Option<&String>)
        ensures
            match r {
                Some(v) => lookup(self@, key@) == Some(v@),
                None => lookup(self@, key@) is None,
            },
    {
        proof {
            use_type_invariant(self);
        }
        match self.position(key) {
            Some(i) => {
                proof {
                    let j = choose|j: int| 0 <= j < self@.len() && self@[j].0 == key@;
                    assert(j == i);
                }
                Some(&self.entries[i].1)
            },
            None => None,
        }
    }

    /// Whether a value is stored under `key`.
    pub fn contains_key(&self, key: &str) -> (b: bool)
        ensures
            b == (lookup(self@, key@) is Some),
    {
        self.position(key).is_some()
    }

    /// Stores `value` under `key`, and returns the value that was stored there before.
    pub fn insert(&mut self, key: String, value: String) -> (previous: Option<String>)
        ensures
            final(self)@ == insert_spec(old(self)@, key@, value@),
            match previous {
                Some(v) => lookup(old(self)@, key@) == Some(v@),
                None => lookup(old(self)@, key@) is None,
            },
    {
        proof {
            use_type_invariant(&*self);
        }
        let ghost before = self@;
        match self.position(key.as_str()) {
            Some(i) => {
                let ghost j = choose|j: int| 0 <= j < before.len() && before[j].0 == key@;
                assert(j == i);
                let old_value = self.entries[i].1.clone();
                let mut entries: Vec<(String, String)> = Vec::new();
                std::mem::swap(&mut entries, &mut self.entries);
                let ghost after = before.update(i as int, (key@, value@));
                entries.set(i, (key, value));
                assert(entry_views(entries@) =~= after);
                assert(keys_distinct(after)) by {
                    assert forall|a: int, b: int|
                        0 <= a < after.len() && 0 <= b < after.len() && a != b implies after[a].0
                        != after[b].0 by {
                        if a != i && b != i {
                            assert(after[a] == before[a] && after[b] == before[b]);
                        } else if a == i {
                            assert(after[b] == before[b]);
                        } else {
                            assert(after[a] == before[a]);
                        }
                    }
                }
                self.entries = entries;
                Some(old_value)
            },
            None => {
                let mut entries: Vec<(String, String)> = Vec::new();
                std::mem::swap(&mut entries, &mut self.entries);
                let ghost after = before.push((key@, value@));
                entries.push((key, value));
                assert(entry_views(entries@) =~= after);
                assert(keys_distinct(after)) by {
                    assert forall|a: int, b: int|
                        0 <= a < after.len() && 0 <= b < after.len() && a != b implies after[a].0
                        != after[b].0 by {
                        if a < before.len() && b < before.len() {
                            assert(after[a] == before[a] && after[b] == before[b]);
                        } else if a < before.len() {
                            assert(after[a] == before[a]);
                        } else {
                            assert(after[b] == before[b]);
                        }
                    }
                }
                self.entries = entries;
                None
            },
        }
    }
}

/// Reading a key back after storing it gives the stored value, and storing a
/// key leaves the values of the other keys as they were.
pub proof fn lemma_lookup_after_insert(
    s: Seq<(Seq<char>, Seq<char>)>,
    key: Seq<char>,
    value: Seq<char>,
    other: Seq<char>,
)
    requires
        keys_distinct(s),
    ensures
        lookup(insert_spec(s, key, value), key) == Some(value),
        other != key ==> lookup(insert_spec(s, key, value), other) == lookup(s, other),
        keys_distinct(insert_spec(s, key, value)),
{
    let t = insert_spec(s, key, value);
    if exists|i: int| 0 <= i < s.len() && s[i].0 == key {
        let i = choose|i: int| 0 <= i < s.len() && s[i].0 == key;
        assert(t[i].0 == key);
        if other != key {
            if exists|j: int| 0 <= j < s.len() && s[j].0 == other {
                let j = choose|j: int| 0 <= j < s.len() && s[j].0 == other;
                assert(t[j].0 == other);
            }
        }
    } else {
        assert(t[s.len() as int].0 == key);
        if other != key {
            if exists|j: int| 0 <= j < s.len() && s[j].0 == other {
                let j = choose|j: int| 0 <= j < s.len() && s[j].0 == other;
                assert(t[j].0 == other);
            }
        }
    }
}

/// The configuration file of a collector: where its server listens.
pub struct Config {
    pub server: ServerConfig,
}

/// The address and certificate of a collector's server.
pub struct ServerConfig {
    pub host: String,
    pub port: u16,
    pub tls: TlsConfig,
}

/// Where a server's TLS certificate and key are stored.
pub struct TlsConfig {
    pub cert_file_path: String,
    pub key_file_path: String,
}

/// How an input's log lines are parsed (kind of parser and its expression).
pub struct ParseConfig {
    pub kind: String,
    pub exp: String,
}

/// Which messages of an input are kept.
pub struct FilterConfig {
    pub rule: String,
}

/// Where the messages of an input go.
pub struct ProduceConfig {
    pub kind: String,
    pub host: Option<String>,
    pub port: Option<String>,
}

/// One input that a server accepts: the tag that selects it, its
/// transformation module and that module's options, and its delivery options.
pub struct InputConfig {
    pub tag: String,
    pub module: String,
    pub option: Option<Options>,
    pub parse: Option<ParseConfig>,
    pub filter: Option<FilterConfig>,
    pub produce: Options,
}

/// Where a server listens and the files of its TLS certificate and key.
pub struct Settings {
    pub host: String,
    pub port: String,
    pub tls_cert_file: String,
    pub tls_key_file: String,
}

/// The configuration file of a server: its inputs and its settings.
pub struct ServerSetup {
    pub inputs: Vec<InputConfig>,
    pub setting: Settings,
}

/// `host:port`.
pub open spec fn host_port(host: Seq<char>, port: Seq<char>) -> Seq<char> {
    host + seq![':'] + port
}

impl Settings {
    /// The address the server listens on, `host:port`.
    pub fn address(&self) -> (a: String)
        ensures
            a@ == host_port(self.host@, self.port@),
    {
        let mut a = self.host.clone();
        a.append(":");
        a.append(self.port.as_str());
        proof {
            reveal_strlit(":");
        }
        a
    }
}

/// The file that a client follows, the tag of its messages and where it sends them.
pub struct ClientSource {
    pub kind: String,
    pub file_path: String,
    pub tag: String,
    pub sink: ClientSink,
}

/// The server a client sends to, and the certificate it trusts.
pub struct ClientSink {
    pub host: String,
    pub port: u16,
    pub tls_cert_file: String,
}

/// The configuration file of a client.
pub struct ClientConfig {
    pub source: Vec<ClientSource>,
}

impl ClientSink {
    /// The address of the server, `host:port` with the port in decimal.
    pub fn address(&self) -> (a: String)
        ensures
            a@ == host_port(self.host@, decimal_spec(self.port as nat)),
    {
        let mut a = self.host.clone();
        a.append(":");
        a.append(decimal(self.port as u128).as_str());
        proof {
            reveal_strlit(":");
        }
        a
    }
}

} // verus!
