//! The server's configuration: its typed sections, and the layering that
//! produces them. Built-in defaults come first, an on-disk file is merged
//! over them, and `NETLAB_*` environment variables override single keys
//! last (`NETLAB_SERVER__PORT=9073` sets `server.port`).
use vstd::prelude::*;
use vstd::string::StringExecFns;
use crate::domain::text::{push_char, text_eq};
use crate::domain::port_entity::{ascii_lower, ascii_lower_text, chars_equal, lower_char};
use vstd::string::StrSliceExecFns;

verus! {

/// The whole configuration.
#[derive(Debug, Clone)]
pub struct NetlabConfig {
    pub server: ServerConfig,
    pub port: PortPoolConfig,
    pub ssl: SslConfig,
    pub metrics: MetricsConfig,
    pub app: AppConfig,
}

/// Web UI settings.
#[derive(Debug, Clone)]
pub struct AppConfig {
    pub static_dir: String,
}

/// The HTTP + WebSocket listener.
#[derive(Debug, Clone)]
pub struct ServerConfig {
    pub host: String,
    pub port: u16,
}

/// The range the port pool hands ports out of.
#[derive(Debug, Clone)]
pub struct PortPoolConfig {
    pub start: u16,
    pub end: u16,
}

/// TLS material for the SSL-TCP ports.
#[derive(Debug, Clone)]
pub struct SslConfig {
    /// Path to a PEM file containing the leaf cert + intermediates.
    pub cert_path: Option<String>,
    /// Path to a PEM file containing the private key (PKCS#8).
    pub key_path: Option<String>,
    /// Optional password for an encrypted PEM private key.
    pub key_password: Option<String>,
}

/// The Prometheus sidecar listener.
#[derive(Debug, Clone)]
pub struct MetricsConfig {
    pub enabled: bool,
    pub port: u16,
}

/// A node of a layered configuration document: a table of named entries or
/// a leaf. A leaf is a handle to a scalar kept by the caller; merging and
/// path insertion never look inside it.
#[derive(Debug)]
pub enum ConfigValue {
    Table(Vec<ConfigEntry>),
    Leaf(u64),
}

/// One named entry of a configuration table.
#[derive(Debug)]
pub struct ConfigEntry {
    pub key: String,
    pub value: ConfigValue,
}

/// The meaning of a configuration node: a finite map from key to subtree,
/// or a leaf handle.
pub ghost enum ConfigTree {
    Table(Map<Seq<char>, ConfigTree>),
    Leaf(u64),
}

/// The tree a configuration node denotes.
pub open spec fn tree_of(v: ConfigValue) -> ConfigTree
    decreases v,
{
    match v {
        ConfigValue::Table(es) => ConfigTree::Table(table_of(es@)),
        ConfigValue::Leaf(h) => ConfigTree::Leaf(h),
    }
}

/// The map a sequence of entries denotes (a later entry wins over an
/// earlier one with the same key).
pub open spec fn table_of(es: Seq<ConfigEntry>) -> Map<Seq<char>, ConfigTree>
    decreases es,
{
    if es.len() == 0 {
        Map::empty()
    } else {
        table_of(es.drop_last()).insert(es.last().key@, tree_of(es.last().value))
    }
}


/// No two entries share a key.
pub open spec fn keys_distinct(es: Seq<ConfigEntry>) -> bool {
    forall|i: int, j: int| 0 <= i < j < es.len() ==> es[i].key@ != es[j].key@
}

/// Every table in the node, at any depth, holds each key at most once (as a
/// parsed TOML document does).
pub open spec fn well_keyed(v: ConfigValue) -> bool
    decreases v,
{
    match v {
        ConfigValue::Table(es) => keys_distinct(es@) && forall|i: int|
            0 <= i < es@.len() ==> well_keyed(#[trigger] es@[i].value),
        ConfigValue::Leaf(_) => true,
    }
}

/// The entries of a well-keyed table.
pub open spec fn entries_ok(es: Seq<ConfigEntry>) -> bool {
    keys_distinct(es) && forall|i: int| 0 <= i < es.len() ==> well_keyed(#[trigger] es[i].value)
}

/// Each entry of a table with distinct keys is found under its key.
proof fn lemma_table_of_entry(es: Seq<ConfigEntry>, i: int)
    requires
        keys_distinct(es),
        0 <= i < es.len(),
    ensures
        table_of(es).contains_key(es[i].key@),
        table_of(es)[es[i].key@] == tree_of(es[i].value),
    decreases es.len(),
{
    if i < es.len() - 1 {
        lemma_table_of_entry(es.drop_last(), i);
    }
}

/// A key is in the table's map exactly when some entry carries it.
proof fn lemma_table_of_dom(es: Seq<ConfigEntry>, k: Seq<char>)
    ensures
        table_of(es).contains_key(k) <==> exists|i: int| 0 <= i < es.len() && es[i].key@ == k,
    decreases es.len(),
{
    if es.len() > 0 {
        lemma_table_of_dom(es.drop_last(), k);
        if table_of(es.drop_last()).contains_key(k) {
            let i = choose|i: int| 0 <= i < es.drop_last().len() && es.drop_last()[i].key@ == k;
            assert(es[i].key@ == k);
        }
        if exists|i: int| 0 <= i < es.len() && es[i].key@ == k {
            let i = choose|i: int| 0 <= i < es.len() && es[i].key@ == k;
            if i < es.len() - 1 {
                assert(es.drop_last()[i].key@ == k);
            }
        }
    }
}

/// Removing the entry at `j` from a table with distinct keys removes its key
/// from the map and nothing else.
proof fn lemma_table_of_remove(es: Seq<ConfigEntry>, j: int)
    requires
        keys_distinct(es),
        0 <= j < es.len(),
    ensures
        table_of(es.remove(j)) == table_of(es).remove(es[j].key@),
    decreases es.len(),
{
    let k = es[j].key@;
    if j == es.len() - 1 {
        assert(es.remove(j) =~= es.drop_last());
        lemma_table_of_dom(es.drop_last(), k);
        assert(table_of(es.drop_last()) =~= table_of(es).remove(k));
    } else {
        let d = es.drop_last();
        lemma_table_of_remove(d, j);
        assert(es.remove(j).drop_last() =~= d.remove(j));
        assert(es.remove(j).last() == es.last());
        assert(table_of(es.remove(j)) =~= table_of(es).remove(k));
    }
}

/// Take the entry stored under `k` out of a table, giving its value.
fn take_entry(es: &mut Vec<ConfigEntry>, k: &str) -> (r: Option<ConfigValue>)
    requires
        entries_ok(old(es)@),
    ensures
        entries_ok(final(es)@),
        match r {
            Some(v) => {
                &&& table_of(old(es)@).contains_key(k@)
                &&& tree_of(v) == table_of(old(es)@)[k@]
                &&& well_keyed(v)
                &&& table_of(final(es)@) == table_of(old(es)@).remove(k@)
            },
            None => {
                &&& !table_of(old(es)@).contains_key(k@)
                &&& final(es)@ == old(es)@
            },
        },
{
    let n = es.len();
    let mut i: usize = 0;
    while i < n
        invariant
            n == es@.len(),
            es@ == old(es)@,
            entries_ok(es@),
            i <= n,
            forall|m: int| 0 <= m < i ==> es@[m].key@ != k@,
        decreases n - i,
    {
        if text_eq(es[i].key.as_str(), k) {
            let ghost before = es@;
            proof {
                lemma_table_of_entry(before, i as int);
                lemma_table_of_remove(before, i as int);
            }
            let e = es.remove(i);
            assert forall|a: int, b: int| 0 <= a < b < es@.len() implies es@[a].key@ != es@[b].key@ by {
                let a0 = if a < i { a } else { a + 1 };
                let b0 = if b < i { b } else { b + 1 };
                assert(es@[a] == before[a0] && es@[b] == before[b0]);
            }
            assert forall|m: int| 0 <= m < es@.len() implies well_keyed(#[trigger] es@[m].value) by {
                let m0 = if m < i { m } else { m + 1 };
                assert(es@[m] == before[m0]);
            }
            return Some(e.value);
        }
        i = i + 1;
    }
    proof {
        lemma_table_of_dom(es@, k@);
    }
    None
}

/// Store `v` under a key the table does not hold yet.
fn put_entry(es: &mut Vec<ConfigEntry>, k: String, v: ConfigValue)
    requires
        entries_ok(old(es)@),
        !table_of(old(es)@).contains_key(k@),
        well_keyed(v),
    ensures
        entries_ok(final(es)@),
        table_of(final(es)@) == table_of(old(es)@).insert(k@, tree_of(v)),
{
    let ghost before = es@;
    let ghost key = k@;
    proof {
        assert forall|m: int| 0 <= m < before.len() implies before[m].key@ != key by {
            lemma_table_of_entry(before, m);
        }
    }
    es.push(ConfigEntry { key: k, value: v });
    assert(es@.drop_last() =~= before);
}

/// The keys a path of texts names, in order.
pub open spec fn path_view(path: Seq<String>) -> Seq<Seq<char>> {
    path.map_values(|s: String| s@)
}

/// The tree after storing `n` at `path`. Missing tables along the path are
/// created, a non-table met along the way is replaced by an empty table,
/// and the last key is overwritten. A leaf at the top is left unchanged, as
/// is any tree for the empty path.
pub open spec fn inserted(t: ConfigTree, path: Seq<Seq<char>>, n: ConfigTree) -> ConfigTree
    decreases path.len(),
{
    if path.len() == 0 {
        t
    } else {
        match t {
            ConfigTree::Table(m) => if path.len() == 1 {
                ConfigTree::Table(m.insert(path[0], n))
            } else {
                let child = if m.contains_key(path[0]) && m[path[0]] is Table {
                    m[path[0]]
                } else {
                    ConfigTree::Table(Map::empty())
                };
                ConfigTree::Table(m.insert(path[0], inserted(child, path.drop_first(), n)))
            },
            ConfigTree::Leaf(_) => t,
        }
    }
}

fn insert_from(value: &mut ConfigValue, path: &[String], i: usize, new: ConfigValue)
    requires
        i <= path@.len(),
        well_keyed(*old(value)),
        well_keyed(new),
    ensures
        well_keyed(*final(value)),
        tree_of(*final(value)) == inserted(
            tree_of(*old(value)),
            path_view(path@).skip(i as int),
            tree_of(new),
        ),
    decreases path@.len() - i,
{
    if i >= path.len() {
        return;
    }
    let ghost rest = path_view(path@).skip(i as int);
    assert(rest[0] == path@[i as int]@);
    assert(rest.drop_first() =~= path_view(path@).skip(i + 1));
    match value {
        ConfigValue::Table(es) => {
            let ghost m0 = table_of(es@);
            let key = String::from_str(path[i].as_str());
            if i + 1 == path.len() {
                let _ = take_entry(es, path[i].as_str());
                put_entry(es, key, new);
                assert(table_of(es@) =~= m0.insert(rest[0], tree_of(new)));
            } else {
                let mut child = match take_entry(es, path[i].as_str()) {
                    Some(ConfigValue::Table(c)) => ConfigValue::Table(c),
                    _ => ConfigValue::Table(Vec::new()),
                };
                assert(table_of(Seq::<ConfigEntry>::empty()) =~= Map::empty());
                let ghost c0 = tree_of(child);
                assert(c0 == (if m0.contains_key(rest[0]) && m0[rest[0]] is Table {
                    m0[rest[0]]
                } else {
                    ConfigTree::Table(Map::empty())
                }));
                insert_from(&mut child, path, i + 1, new);
                put_entry(es, key, child);
                assert(table_of(es@) =~= m0.insert(
                    rest[0],
                    inserted(c0, rest.drop_first(), tree_of(new)),
                ));
            }
        },
        ConfigValue::Leaf(_) => {},
    }
}

/// Store `new` at `path` inside `value` (the keys of `path` lead from the
/// top table down). Tables missing along the path are created, a non-table
/// met along the way is replaced by an empty table, and whatever stood at
/// the last key is replaced. Nothing happens for an empty path or when
/// `value` itself is not a table.
pub fn insert_at_path(value: &mut ConfigValue, path: &[String], new: ConfigValue)
    requires
        well_keyed(*old(value)),
        well_keyed(new),
    ensures
        well_keyed(*final(value)),
        tree_of(*final(value)) == inserted(tree_of(*old(value)), path_view(path@), tree_of(new)),
{
    assert(path_view(path@).skip(0) =~= path_view(path@));
    insert_from(value, path, 0, new);
}

/// The tree after laying `o` over `b`: where both are tables, every key of
/// either is kept; a key in both is merged in turn, and a key of one side
/// only keeps that side's subtree. Anywhere else the overlay replaces the
/// base.
pub open spec fn merged(b: ConfigTree, o: ConfigTree) -> ConfigTree
    decreases o,
{
    match (b, o) {
        (ConfigTree::Table(bm), ConfigTree::Table(om)) => ConfigTree::Table(
            Map::new(
                |k: Seq<char>| bm.contains_key(k) || om.contains_key(k),
                |k: Seq<char>|
                    if bm.contains_key(k) && om.contains_key(k) {
                        merged(bm[k], om[k])
                    } else if om.contains_key(k) {
                        om[k]
                    } else {
                        bm[k]
                    },
            ),
        ),
        _ => o,
    }
}

/// Lay `overlay` over `base` (the on-disk file over the built-in defaults):
/// tables are merged key by key, recursively; anything else in the overlay
/// replaces what stood in the base.
pub fn merge_config(base: &mut ConfigValue, overlay: ConfigValue)
    requires
        well_keyed(*old(base)),
        well_keyed(overlay),
    ensures
        well_keyed(*final(base)),
        tree_of(*final(base)) == merged(tree_of(*old(base)), tree_of(overlay)),
    decreases overlay,
{
    let ghost ov = overlay;
    match overlay {
        ConfigValue::Table(oes) => {
            match base {
                ConfigValue::Table(bes) => {
                    let ghost bm0 = table_of(bes@);
                    let ghost o0 = oes@;
                    assert(o0.take(0) =~= Seq::<ConfigEntry>::empty());
                    assert(table_of(o0.take(0)) =~= Map::empty());
                    assert(table_of(bes@) =~= merged(
                        ConfigTree::Table(bm0),
                        ConfigTree::Table(table_of(o0.take(0))),
                    )->Table_0);
                    let mut rest = oes;
                    let ghost mut i: int = 0;
                    assert(rest@ =~= o0.skip(0));
                    while rest.len() > 0
                        invariant
                            entries_ok(bes@),
                            entries_ok(o0),
                            0 <= i <= o0.len(),
                            rest@ == o0.skip(i),
                            ov == ConfigValue::Table(oes),
                            ov == overlay,
                            o0 == oes@,
                            ConfigTree::Table(table_of(bes@)) == merged(
                                ConfigTree::Table(bm0),
                                ConfigTree::Table(table_of(o0.take(i))),
                            ),
                        decreases rest.len(),
                    {
                        let ghost mb = table_of(bes@);
                        let ghost oi = table_of(o0.take(i));
                        let e = rest.remove(0);
                        assert(e == o0[i]);
                        let ConfigEntry { key, value: v } = e;
                        let ghost k = key@;
                        proof {
                            assert(o0.take(i + 1).drop_last() =~= o0.take(i));
                            assert(o0.take(i + 1).last() == o0[i]);
                            lemma_table_of_dom(o0.take(i), k);
                            assert(!oi.contains_key(k));
                            assert(well_keyed(v));
                        }
                        let taken = take_entry(bes, key.as_str());
                        let ghost newval = if bm0.contains_key(k) {
                            merged(bm0[k], tree_of(v))
                        } else {
                            tree_of(v)
                        };
                        assert(mb.contains_key(k) == bm0.contains_key(k));
                        assert(bm0.contains_key(k) ==> mb[k] == bm0[k]);
                        match taken {
                            Some(ConfigValue::Table(bt)) => {
                                if let ConfigValue::Table(_) = v {
                                    let mut t = ConfigValue::Table(bt);
                                    proof {
                                        let ov_entries = ov->Table_0;
                                        assert(decreases_to!(ov => ov_entries));
                                        assert(decreases_to!(ov_entries => ov_entries@));
                                        assert(decreases_to!(o0 => o0[i]));
                                        assert(decreases_to!(o0[i] => o0[i].value));
                                        assert(decreases_to!(ov => v));
                                    }
                                    merge_config(&mut t, v);
                                    put_entry(bes, key, t);
                                } else {
                                    put_entry(bes, key, v);
                                }
                            },
                            _ => {
                                put_entry(bes, key, v);
                            },
                        }
                        assert(table_of(bes@) =~= mb.insert(k, newval));
                        proof {
                            i = i + 1;
                        }
                        assert(rest@ =~= o0.skip(i));
                        assert(table_of(bes@) =~= merged(
                            ConfigTree::Table(bm0),
                            ConfigTree::Table(table_of(o0.take(i))),
                        )->Table_0);
                    }
                    assert(o0.take(i) =~= o0);
                },
                ConfigValue::Leaf(_) => {
                    *base = ConfigValue::Table(oes);
                },
            }
        },
        ConfigValue::Leaf(h) => {
            *base = ConfigValue::Leaf(h);
        },
    }
}

/// The subtree reached by following `path` down from `t`, if every key on
/// the way is present in a table.
pub open spec fn lookup(t: ConfigTree, path: Seq<Seq<char>>) -> Option<ConfigTree>
    decreases path.len(),
{
    if path.len() == 0 {
        Some(t)
    } else {
        match t {
            ConfigTree::Table(m) => if m.contains_key(path[0]) {
                lookup(m[path[0]], path.drop_first())
            } else {
                None
            },
            ConfigTree::Leaf(_) => None,
        }
    }
}

/// What is stored at a path is found there afterwards: after an override
/// of `path` in a table, looking `path` up gives the stored value.
pub proof fn lemma_inserted_found(t: ConfigTree, path: Seq<Seq<char>>, n: ConfigTree)
    requires
        t is Table,
        path.len() > 0,
    ensures
        lookup(inserted(t, path, n), path) == Some(n),
    decreases path.len(),
{
    let m = t->Table_0;
    if path.len() > 1 {
        let child = if m.contains_key(path[0]) && m[path[0]] is Table {
            m[path[0]]
        } else {
            ConfigTree::Table(Map::empty())
        };
        lemma_inserted_found(child, path.drop_first(), n);
        let sub = inserted(child, path.drop_first(), n);
        assert(inserted(t, path, n) == ConfigTree::Table(m.insert(path[0], sub)));
        assert(lookup(inserted(t, path, n), path) == lookup(sub, path.drop_first()));
    } else {
        assert(inserted(t, path, n) == ConfigTree::Table(m.insert(path[0], n)));
        assert(lookup(n, path.drop_first()) == Some(n));
    }
}

/// An override touches only its own branch: any path that starts with
/// another key finds what it found before.
pub proof fn lemma_inserted_elsewhere(
    t: ConfigTree,
    path: Seq<Seq<char>>,
    n: ConfigTree,
    q: Seq<Seq<char>>,
)
    requires
        path.len() > 0,
        q.len() > 0,
        q[0] != path[0],
    ensures
        lookup(inserted(t, path, n), q) == lookup(t, q),
{
}

/// The overlay wins: every leaf of the overlay is found at the same path in
/// the merged tree.
pub proof fn lemma_merged_keeps_overlay_leaf(
    b: ConfigTree,
    o: ConfigTree,
    path: Seq<Seq<char>>,
    h: u64,
)
    requires
        lookup(o, path) == Some(ConfigTree::Leaf(h)),
    ensures
        lookup(merged(b, o), path) == Some(ConfigTree::Leaf(h)),
    decreases path.len(),
{
    if path.len() > 0 {
        if let (ConfigTree::Table(bm), ConfigTree::Table(om)) = (b, o) {
            let k = path[0];
            if bm.contains_key(k) {
                lemma_merged_keeps_overlay_leaf(bm[k], om[k], path.drop_first(), h);
            }
        }
    }
}

/// The base shows through: where the overlay table does not mention the
/// first key of a path, the merged tree finds what the base found.
pub proof fn lemma_merged_keeps_base(b: ConfigTree, o: ConfigTree, path: Seq<Seq<char>>)
    requires
        b is Table,
        o is Table,
        path.len() > 0,
        !o->Table_0.contains_key(path[0]),
    ensures
        lookup(merged(b, o), path) == lookup(b, path),
{
}

/// Layering: an environment override stored after merging the on-disk file
/// over the defaults is what the final configuration holds at its path.
pub proof fn lemma_override_wins(
    defaults: ConfigTree,
    file: ConfigTree,
    path: Seq<Seq<char>>,
    n: ConfigTree,
)
    requires
        defaults is Table,
        file is Table,
        path.len() > 0,
    ensures
        lookup(inserted(merged(defaults, file), path, n), path) == Some(n),
{
    lemma_inserted_found(merged(defaults, file), path, n);
}

/// The pieces of `s` between non-overlapping `__` separators, scanning from
/// the left (`str::split("__")`); `cur` is the piece read so far.
pub open spec fn split_segments(s: Seq<char>, cur: Seq<char>) -> Seq<Seq<char>>
    decreases s.len(),
{
    if s.len() == 0 {
        seq![cur]
    } else if s.len() >= 2 && s[0] == '_' && s[1] == '_' {
        seq![cur] + split_segments(s.skip(2), Seq::empty())
    } else {
        split_segments(s.skip(1), cur.push(s[0]))
    }
}

/// The configuration path an environment variable overrides:
/// `NETLAB_SERVER__PORT` names `server.port`. The name must start with
/// `NETLAB_`; the rest is split at each `__` and every key is lowercased
/// to match the configuration's keys.
pub open spec fn spec_env_override_path(name: Seq<char>) -> Option<Seq<Seq<char>>> {
    if name.len() >= 7 && name.take(7) == "NETLAB_"@ {
        Some(
            split_segments(name.skip(7), Seq::empty()).map_values(
                |seg: Seq<char>| ascii_lower_text(seg),
            ),
        )
    } else {
        None
    }
}

/// The characters of a text.
fn chars_of(s: &str) -> (cs: Vec<char>)
    ensures
        cs@ == s@,
{
    let mut cs: Vec<char> = Vec::new();
    for c in it: s.chars()
        invariant
            it.seq() == s@,
            cs@ == s@.take(it.index() as int),
    {
        cs.push(c);
        assert(s@.take(it.index() as int + 1) =~= s@.take(it.index() as int).push(c));
    }
    assert(s@.take(s@.len() as int) =~= s@);
    cs
}

/// The configuration path an environment variable overrides, or `None`
/// for a variable without the `NETLAB_` prefix.
pub fn env_override_path(name: &str) -> (r: Option<Vec<String>>)
    ensures
        match spec_env_override_path(name@) {
            Some(p) => r matches Some(v) && path_view(v@) == p,
            None => r is None,
        },
{
    let cs = chars_of(name);
    let prefix = "NETLAB_";
    proof {
        reveal_strlit("NETLAB_");
    }
    if cs.len() < 7 {
        return None;
    }
    let mut j: usize = 0;
    while j < 7
        invariant
            cs@ == name@,
            cs@.len() >= 7,
            prefix@ == "NETLAB_"@,
            prefix@.len() == 7,
            j <= 7,
            forall|m: int| 0 <= m < j ==> cs@[m] == prefix@[m],
        decreases 7 - j,
    {
        if cs[j] != prefix.get_char(j) {
            assert(name@.take(7)[j as int] != "NETLAB_"@[j as int]);
            return None;
        }
        j = j + 1;
    }
    assert(name@.take(7) =~= "NETLAB_"@);
    let ghost whole = split_segments(cs@.skip(7), Seq::empty());
    let mut out: Vec<String> = Vec::new();
    let mut cur = String::new();
    let ghost mut raw_out: Seq<Seq<char>> = Seq::empty();
    let ghost mut raw_cur: Seq<char> = Seq::empty();
    let n = cs.len();
    let mut i: usize = 7;
    assert(ascii_lower_text(raw_cur) =~= cur@);
    while i < n
        invariant
            n == cs@.len(),
            7 <= i <= n,
            whole == raw_out + split_segments(cs@.skip(i as int), raw_cur),
            path_view(out@) == raw_out.map_values(|seg: Seq<char>| ascii_lower_text(seg)),
            cur@ == ascii_lower_text(raw_cur),
        decreases n - i,
    {
        let ghost s = cs@.skip(i as int);
        if i + 1 < n && cs[i] == '_' && cs[i + 1] == '_' {
            assert(s.skip(2) =~= cs@.skip(i + 2));
            let piece = cur;
            cur = String::new();
            let ghost pv = path_view(out@);
            let ghost lowered = raw_out.map_values(|seg: Seq<char>| ascii_lower_text(seg));
            proof {
                assert(raw_out.push(raw_cur).map_values(|seg: Seq<char>| ascii_lower_text(seg))
                    =~= lowered.push(ascii_lower_text(raw_cur)));
                assert(whole == raw_out.push(raw_cur) + split_segments(s.skip(2), Seq::empty())) by {
                    assert(raw_out + (seq![raw_cur] + split_segments(s.skip(2), Seq::empty()))
                        =~= raw_out.push(raw_cur) + split_segments(s.skip(2), Seq::empty()));
                }
                raw_out = raw_out.push(raw_cur);
                raw_cur = Seq::empty();
            }
            out.push(piece);
            assert(path_view(out@) =~= pv.push(out@.last()@));
            assert(ascii_lower_text(raw_cur) =~= cur@);
            i = i + 2;
        } else {
            let c = cs[i];
            assert(s.skip(1) =~= cs@.skip(i + 1));
            push_char(&mut cur, lower_char(c));
            proof {
                assert(ascii_lower_text(raw_cur.push(c)) =~= ascii_lower_text(raw_cur).push(
                    ascii_lower(c),
                ));
                raw_cur = raw_cur.push(c);
            }
            i = i + 1;
        }
    }
    assert(cs@.skip(i as int) =~= Seq::<char>::empty());
    let ghost pv = path_view(out@);
    out.push(cur);
    assert(path_view(out@) =~= pv.push(out@.last()@));
    proof {
        assert(raw_out.push(raw_cur).map_values(|seg: Seq<char>| ascii_lower_text(seg))
            =~= raw_out.map_values(|seg: Seq<char>| ascii_lower_text(seg)).push(
            ascii_lower_text(raw_cur),
        ));
        assert(whole =~= raw_out.push(raw_cur));
        raw_out = raw_out.push(raw_cur);
    }
    assert(path_view(out@) =~= raw_out.map_values(|seg: Seq<char>| ascii_lower_text(seg)));
    assert(cs@.skip(7) == name@.skip(7));
    Some(out)
}

/// The value of a run of decimal digits.
pub open spec fn digits_value(s: Seq<char>) -> nat
    decreases s.len(),
{
    if s.len() == 0 {
        0
    } else {
        digits_value(s.drop_last()) * 10 + (s.last() as nat - 48) as nat
    }
}

/// Every character is an ASCII decimal digit.
pub open spec fn all_digits(s: Seq<char>) -> bool {
    forall|i: int| 0 <= i < s.len() ==> '0' <= #[trigger] s[i] && s[i] <= '9'
}

/// What `str::parse::<i64>` accepts: an optional `+` or `-`, then one or
/// more decimal digits, denoting a value within the range of `i64`.
pub open spec fn spec_parse_i64(s: Seq<char>) -> Option<i64> {
    let signed = s.len() > 0 && (s[0] == '-' || s[0] == '+');
    let body = if signed { s.drop_first() } else { s };
    let v: int = if s.len() > 0 && s[0] == '-' {
        -(digits_value(body) as int)
    } else {
        digits_value(body) as int
    };
    if body.len() > 0 && all_digits(body) && i64::MIN <= v <= i64::MAX {
        Some(v as i64)
    } else {
        None
    }
}

/// Parse a decimal `i64` the way `str::parse::<i64>` does.
pub fn parse_i64(s: &str) -> (r: Option<i64>)
    ensures
        r == spec_parse_i64(s@),
{
    let cs = chars_of(s);
    let n = cs.len();
    if n == 0 {
        return None;
    }
    let neg = cs[0] == '-';
    let start: usize = if cs[0] == '-' || cs[0] == '+' { 1 } else { 0 };
    if start == n {
        return None;
    }
    let ghost body = if start == 1 { cs@.drop_first() } else { cs@ };
    assert(body =~= cs@.skip(start as int));
    // Magnitudes past 2^63 are out of range either way; keep the running
    // value capped just above that.
    let cap: u128 = 0x8000_0000_0000_0001;
    let mut acc: u128 = 0;
    let mut i: usize = start;
    assert(body.take(0) =~= Seq::<char>::empty());
    while i < n
        invariant
            n == cs@.len(),
            start <= i <= n,
            body == cs@.skip(start as int),
            cs@ == s@,
            body == (if s@.len() > 0 && (s@[0] == '-' || s@[0] == '+') {
                s@.drop_first()
            } else {
                s@
            }),
            cap == 0x8000_0000_0000_0001u128,
            all_digits(body.take(i - start)),
            acc == if digits_value(body.take(i - start)) < cap {
                digits_value(body.take(i - start))
            } else {
                cap as nat
            },
        decreases n - i,
    {
        let c = cs[i];
        if c < '0' || c > '9' {
            assert(body[i - start] == c);
            assert(!all_digits(body));
            return None;
        }
        let d: u128 = ((c as u32) - 48) as u128;
        let ghost pre = body.take(i - start);
        let ghost next = body.take(i - start + 1);
        assert(next.drop_last() =~= pre);
        assert(next.last() == c);
        assert(digits_value(next) == digits_value(pre) * 10 + d);
        let t = acc * 10 + d;
        acc = if t < cap { t } else { cap };
        i = i + 1;
        assert(all_digits(body.take(i - start))) by {
            assert forall|k: int| 0 <= k < next.len() implies '0' <= #[trigger] next[k] && next[k] <= '9' by {
                if k < pre.len() {
                    assert(next[k] == pre[k]);
                }
            }
        }
    }
    assert(body.take(n - start) =~= body);
    if neg {
        if acc <= 0x8000_0000_0000_0000 {
            let m: i128 = acc as i128;
            Some((-m) as i64)
        } else {
            None
        }
    } else {
        if acc <= 0x7fff_ffff_ffff_ffff {
            Some(acc as i64)
        } else {
            None
        }
    }
}

/// An environment value, read as the most specific scalar it spells.
#[derive(Debug, Clone, PartialEq, Eq)]
pub enum EnvScalar {
    Boolean(bool),
    Integer(i64),
    Text(String),
}

/// Read an environment value: `true` / `false` in any ASCII case are
/// booleans; then anything `str::parse::<i64>` accepts is an integer; the
/// rest is text (the loader tries a float there before keeping the text).
pub fn parse_env_scalar(s: &str) -> (r: EnvScalar)
    ensures
        if ascii_lower_text(s@) == "true"@ {
            r == EnvScalar::Boolean(true)
        } else if ascii_lower_text(s@) == "false"@ {
            r == EnvScalar::Boolean(false)
        } else {
            match spec_parse_i64(s@) {
                Some(n) => r == EnvScalar::Integer(n),
                None => r matches EnvScalar::Text(t) && t@ == s@,
            }
        },
{
    let cs = chars_of(s);
    let mut lower: Vec<char> = Vec::new();
    let n = cs.len();
    let mut i: usize = 0;
    while i < n
        invariant
            n == cs@.len(),
            cs@ == s@,
            i <= n,
            lower@ =~= ascii_lower_text(s@.take(i as int)),
        decreases n - i,
    {
        lower.push(lower_char(cs[i]));
        assert(s@.take(i + 1) =~= s@.take(i as int).push(cs@[i as int]));
        i = i + 1;
    }
    assert(s@.take(n as int) =~= s@);
    if chars_equal(&lower, "true") {
        EnvScalar::Boolean(true)
    } else if chars_equal(&lower, "false") {
        EnvScalar::Boolean(false)
    } else {
        match parse_i64(s) {
            Some(v) => EnvScalar::Integer(v),
            None => EnvScalar::Text(String::from_str(s)),
        }
    }
}

impl ConfigValue {
    /// True iff every table in the node, at any depth, holds each key at
    /// most once.
    pub fn is_well_keyed(&self) -> (b: bool)
        ensures
            b == well_keyed(*self),
        decreases self,
    {
        match self {
            ConfigValue::Leaf(_) => true,
            ConfigValue::Table(es) => {
                let n = es.len();
                let mut i: usize = 0;
                while i < n
                    invariant
                        n == es@.len(),
                        *self == ConfigValue::Table(*es),
                        i <= n,
                        forall|a: int| 0 <= a < i ==> well_keyed(#[trigger] es@[a].value),
                        forall|a: int, c: int| 0 <= a < c < i ==> es@[a].key@ != es@[c].key@,
                    decreases n - i,
                {
                    proof {
                        let me = *self;
                        let entries = me->Table_0;
                        assert(decreases_to!(me => entries));
                        assert(decreases_to!(entries => entries@));
                        assert(decreases_to!(es@ => es@[i as int]));
                        assert(decreases_to!(es@[i as int] => es@[i as int].value));
                    }
                    if !es[i].value.is_well_keyed() {
                        return false;
                    }
                    let mut j: usize = 0;
                    while j < i
                        invariant
                            n == es@.len(),
                            *self == ConfigValue::Table(*es),
                            j <= i < n,
                            forall|a: int| 0 <= a < j ==> es@[a].key@ != es@[i as int].key@,
                        decreases i - j,
                    {
                        if text_eq(es[j].key.as_str(), es[i].key.as_str()) {
                            return false;
                        }
                        j = j + 1;
                    }
                    i = i + 1;
                }
                true
            },
        }
    }
}

#[verifier::external_type_specification]
#[verifier::external_body]
pub struct ExTomlValue(toml::Value);

/// Whether `toml::from_str::<toml::Value>` accepts a text as a TOML
/// document.
pub uninterp spec fn toml_accepts(text: Seq<char>) -> bool;

/// The document `toml::from_str::<toml::Value>` makes of a text it
/// accepts.
pub uninterp spec fn toml_document(text: Seq<char>) -> toml::Value;

/// The entries of a TOML value that is a table, in the order the table
/// yields them: each key's text with its value. `None` for a value that
/// is not a table.
pub uninterp spec fn toml_entries(v: toml::Value) -> Option<Seq<(Seq<char>, toml::Value)>>;

/// How deeply tables nest in a TOML value (a value is a finite tree).
pub uninterp spec fn toml_depth(v: toml::Value) -> nat;

/// `toml::from_str::<toml::Value>`: the document a text holds, or the
/// parser's error text.
#[verifier::external_body]
fn parse_toml(text: &str) -> (r: Result<toml::Value, String>)
    ensures
        r is Ok <==> toml_accepts(text@),
        r matches Ok(v) ==> v == toml_document(text@),
{
    toml::from_str::<toml::Value>(text).map_err(|e| e.to_string())
}

/// The entries of a TOML table (`toml::Value::Table`), moved out with
/// their keys, or the value itself when it is not a table. A table holds
/// each key once (it is a map), and each of its values nests less deeply
/// than the table.
#[verifier::external_body]
fn toml_table_entries(v: toml::Value) -> (r: Result<Vec<(String, toml::Value)>, toml::Value>)
    ensures
        match r {
            Ok(es) => {
                &&& toml_entries(v) == Some(es@.map_values(|e: (String, toml::Value)| (e.0@, e.1)))
                &&& forall|i: int, j: int| 0 <= i < j < es@.len() ==> es@[i].0@ != es@[j].0@
                &&& forall|i: int| 0 <= i < es@.len() ==> toml_depth(#[trigger] es@[i].1) < toml_depth(v)
            },
            Err(leaf) => toml_entries(v) is None && leaf == v,
        },
{
    match v {
        toml::Value::Table(t) => Ok(t.into_iter().collect()),
        other => Err(other),
    }
}

/// `c` is the tree of the TOML value `v`, its leaves kept in `leaves`: a
/// table becomes a table with the same keys in the same order, each
/// holding the tree of its value; any other value becomes a leaf whose
/// handle is that value's index in `leaves`.
pub open spec fn mirrors(v: toml::Value, c: ConfigValue, leaves: Seq<toml::Value>) -> bool
    decreases c,
{
    match c {
        ConfigValue::Leaf(h) => toml_entries(v) is None && h < leaves.len() && leaves[h as int] == v,
        ConfigValue::Table(out) => match toml_entries(v) {
            Some(es) => out@.len() == es.len() && forall|i: int|
                0 <= i < es.len() ==> (#[trigger] out@[i]).key@ == es[i].0 && mirrors(
                    es[i].1,
                    out@[i].value,
                    leaves,
                ),
            None => false,
        },
    }
}

proof fn lemma_mirrors_grow(v: toml::Value, c: ConfigValue, l: Seq<toml::Value>, m: Seq<toml::Value>)
    requires
        mirrors(v, c, l),
        l.len() <= m.len(),
        m.take(l.len() as int) == l,
    ensures
        mirrors(v, c, m),
    decreases c,
{
    match c {
        ConfigValue::Leaf(h) => {
            assert(m[h as int] == m.take(l.len() as int)[h as int]);
        },
        ConfigValue::Table(out) => {
            let es = toml_entries(v).unwrap();
            assert forall|i: int| 0 <= i < es.len() implies (#[trigger] out@[i]).key@ == es[i].0
                && mirrors(es[i].1, out@[i].value, m) by {
                assert(decreases_to!(c => out));
                assert(decreases_to!(out => out@));
                assert(decreases_to!(out@ => out@[i]));
                assert(decreases_to!(out@[i] => out@[i].value));
                lemma_mirrors_grow(es[i].1, out@[i].value, l, m);
            }
        },
    }
}

/// Every leaf handle in the node is below `n`.
pub open spec fn handles_below(v: ConfigValue, n: nat) -> bool
    decreases v,
{
    match v {
        ConfigValue::Table(es) => forall|i: int|
            0 <= i < es@.len() ==> handles_below(#[trigger] es@[i].value, n),
        ConfigValue::Leaf(h) => h < n,
    }
}

proof fn lemma_handles_below_grow(v: ConfigValue, n: nat, m: nat)
    requires
        handles_below(v, n),
        n <= m,
    ensures
        handles_below(v, m),
    decreases v,
{
    if let ConfigValue::Table(es) = v {
        assert forall|i: int| 0 <= i < es@.len() implies handles_below(#[trigger] es@[i].value, m) by {
            assert(decreases_to!(v => es));
            assert(decreases_to!(es => es@));
            assert(decreases_to!(es@ => es@[i]));
            assert(decreases_to!(es@[i] => es@[i].value));
            lemma_handles_below_grow(es@[i].value, n, m);
        }
    }
}

/// The tree of a TOML value: tables become tables, every other value is
/// moved to the end of `leaves` and becomes a leaf with its index.
fn to_config(v: toml::Value, leaves: &mut Vec<toml::Value>) -> (c: ConfigValue)
    ensures
        final(leaves)@.len() >= old(leaves)@.len(),
        final(leaves)@.take(old(leaves)@.len() as int) == old(leaves)@,
        well_keyed(c),
        handles_below(c, final(leaves)@.len()),
        mirrors(v, c, final(leaves)@),
    decreases toml_depth(v),
{
    let ghost v0 = v;
    match toml_table_entries(v) {
        Err(leaf) => {
            let h = leaves.len() as u64;
            leaves.push(leaf);
            assert(leaves@.take(old(leaves)@.len() as int) =~= old(leaves)@);
            ConfigValue::Leaf(h)
        },
        Ok(entries) => {
            let ghost es0 = entries@;
            let ghost ev = toml_entries(v0).unwrap();
            let mut rest = entries;
            let mut out: Vec<ConfigEntry> = Vec::new();
            let ghost mut i: int = 0;
            assert(rest@ =~= es0.skip(0));
            while rest.len() > 0
                invariant
                    v0 == v,
                    0 <= i <= es0.len(),
                    rest@ == es0.skip(i),
                    out@.len() == i,
                    ev == es0.map_values(|e: (String, toml::Value)| (e.0@, e.1)),
                    forall|a: int| 0 <= a < es0.len() ==> toml_depth(#[trigger] es0[a].1) < toml_depth(v0),
                    forall|a: int, b: int| 0 <= a < b < es0.len() ==> es0[a].0@ != es0[b].0@,
                    forall|a: int| 0 <= a < i ==> (#[trigger] out@[a]).key@ == es0[a].0@,
                    forall|a: int| 0 <= a < i ==> well_keyed(#[trigger] out@[a].value),
                    forall|a: int| 0 <= a < i ==> handles_below(#[trigger] out@[a].value, leaves@.len()),
                    forall|a: int| 0 <= a < i ==> mirrors(es0[a].1, #[trigger] out@[a].value, leaves@),
                    leaves@.len() >= old(leaves)@.len(),
                    leaves@.take(old(leaves)@.len() as int) == old(leaves)@,
                decreases rest.len(),
            {
                let (key, val) = rest.remove(0);
                assert(val == es0[i].1 && key == es0[i].0);
                let ghost before = leaves@;
                let child = to_config(val, leaves);
                proof {
                    assert forall|a: int| 0 <= a < i implies handles_below(
                        #[trigger] out@[a].value,
                        leaves@.len(),
                    ) by {
                        lemma_handles_below_grow(out@[a].value, before.len(), leaves@.len());
                    }
                    assert forall|a: int| 0 <= a < i implies mirrors(es0[a].1, #[trigger] out@[a].value, leaves@) by {
                        lemma_mirrors_grow(es0[a].1, out@[a].value, before, leaves@);
                    }
                    assert(leaves@.take(old(leaves)@.len() as int) =~= before.take(
                        old(leaves)@.len() as int,
                    ));
                }
                out.push(ConfigEntry { key, value: child });
                proof {
                    i = i + 1;
                }
                assert(rest@ =~= es0.skip(i));
            }
            let r = ConfigValue::Table(out);
            assert(keys_distinct(out@));
            assert forall|a: int| 0 <= a < ev.len() implies (#[trigger] out@[a]).key@ == ev[a].0
                && mirrors(ev[a].1, out@[a].value, leaves@) by {
                assert(ev[a] == (es0[a].0@, es0[a].1));
            }
            r
        },
    }
}

/// Parse the text of a TOML configuration document into its tree, moving
/// its leaf values into `leaves` (a leaf's handle is its index there). A
/// text `toml` does not accept is an error, with the parser's message.
pub fn parse_config_text(text: &str, leaves: &mut Vec<toml::Value>) -> (r: Result<ConfigValue, String>)
    ensures
        r is Ok <==> toml_accepts(text@),
        final(leaves)@.len() >= old(leaves)@.len(),
        final(leaves)@.take(old(leaves)@.len() as int) == old(leaves)@,
        r matches Ok(t) ==> {
            &&& well_keyed(t)
            &&& handles_below(t, final(leaves)@.len())
            &&& mirrors(toml_document(text@), t, final(leaves)@)
        },
{
    let doc = match parse_toml(text) {
        Ok(d) => d,
        Err(e) => {
            assert(leaves@.take(leaves@.len() as int) =~= leaves@);
            return Err(e);
        },
    };
    Ok(to_config(doc, leaves))
}

} // verus!
