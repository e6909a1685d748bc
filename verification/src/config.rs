//! Per-shard configuration and the configuration registry of one run: a
//! mapping from shard id to role, metrics endpoint and attribute bag.

use vstd::prelude::*;
use vstd::string::StringExecFns;

verus! {

/// Identifies one shard within a configuration registry.
pub type ShardId = u64;

/// The two roles a shard can take. Role tags are resolved to this closed set
/// at the configuration-parsing boundary; everything downstream is
/// polymorphic over it.
#[derive(Clone, Copy, Debug, PartialEq, Eq, Structural)]
pub enum Role {
    /// Orders transactions.
    Sequencing,
    /// Executes ordered transactions.
    Execution,
}

/// An IPv4 endpoint as plain values: four address octets packed in a `u32`,
/// and a port. The registry model carries IPv4 endpoints only; a driver that
/// meets another address family must reject it at its parsing boundary.
#[derive(Clone, Copy, Debug, PartialEq, Eq, Structural)]
pub struct NetAddress {
    pub ip: u32,
    pub port: u16,
}

/// The IPv4 loopback address, 127.0.0.1.
pub const LOOPBACK_IP: u32 = 0x7f00_0001;

/// The IPv4 wildcard address, 0.0.0.0, on which metrics endpoints bind.
pub const WILDCARD_IP: u32 = 0;

/// First metrics port handed out by benchmark registries; shard `i` gets
/// `BASE_METRICS_PORT + i`.
pub const BASE_METRICS_PORT: u16 = 18000;

impl Role {
    /// Resolves a textual role tag to the closed role set. Exactly the tags
    /// `"SW"` (sequencing) and `"EW"` (execution) are known; any other tag is
    /// a configuration error.
    pub fn from_tag(tag: &str) -> (r: Option<Role>)
        ensures
            r == Some(Role::Sequencing) <==> tag@ == "SW"@,
            r == Some(Role::Execution) <==> tag@ == "EW"@,
            r is None <==> (tag@ != "SW"@ && tag@ != "EW"@),
    {
        proof {
            reveal_strlit("SW");
            reveal_strlit("EW");
            assert("SW"@[0] == 'S' && "EW"@[0] == 'E');
            assert("SW"@ != "EW"@);
        }
        let t = tag.to_owned();
        if t == String::from_str("SW") {
            Some(Role::Sequencing)
        } else if t == String::from_str("EW") {
            Some(Role::Execution)
        } else {
            None
        }
    }

    /// The textual tag of this role, the inverse of `from_tag`.
    pub fn tag(&self) -> (r: &'static str)
        ensures
            *self == Role::Sequencing ==> r@ == "SW"@,
            *self == Role::Execution ==> r@ == "EW"@,
    {
        match self {
            Role::Sequencing => "SW",
            Role::Execution => "EW",
        }
    }
}

/// The attribute pairs of a bag, as character sequences.
pub open spec fn pair_views(s: Seq<(String, String)>) -> Seq<(Seq<char>, Seq<char>)> {
    s.map_values(|p: (String, String)| (p.0@, p.1@))
}

/// First-match lookup in an attribute list.
pub open spec fn spec_attr_get(s: Seq<(Seq<char>, Seq<char>)>, k: Seq<char>) -> Option<Seq<char>>
    decreases s.len(),
{
    if s.len() == 0 {
        None
    } else if s.first().0 == k {
        Some(s.first().1)
    } else {
        spec_attr_get(s.drop_first(), k)
    }
}

/// The attribute list without any pair keyed `k`.
pub open spec fn spec_drop_attr(s: Seq<(Seq<char>, Seq<char>)>, k: Seq<char>) -> Seq<
    (Seq<char>, Seq<char>),
>
    decreases s.len(),
{
    if s.len() == 0 {
        s
    } else if s.first().0 == k {
        spec_drop_attr(s.drop_first(), k)
    } else {
        seq![s.first()] + spec_drop_attr(s.drop_first(), k)
    }
}

/// Keys are unique in the list.
pub open spec fn attrs_wf(s: Seq<(Seq<char>, Seq<char>)>) -> bool
    decreases s.len(),
{
    s.len() == 0 || (spec_attr_get(s.drop_first(), s.first().0) is None && attrs_wf(
        s.drop_first(),
    ))
}

proof fn lemma_drop_attr_get(s: Seq<(Seq<char>, Seq<char>)>, k: Seq<char>, k2: Seq<char>)
    ensures
        spec_attr_get(spec_drop_attr(s, k), k) is None,
        k2 != k ==> spec_attr_get(spec_drop_attr(s, k), k2) == spec_attr_get(s, k2),
    decreases s.len(),
{
    if s.len() > 0 {
        lemma_drop_attr_get(s.drop_first(), k, k2);
        if s.first().0 != k {
            assert((seq![s.first()] + spec_drop_attr(s.drop_first(), k)).drop_first()
                =~= spec_drop_attr(s.drop_first(), k));
        }
    }
}

proof fn lemma_drop_attr_wf(s: Seq<(Seq<char>, Seq<char>)>, k: Seq<char>)
    requires
        attrs_wf(s),
    ensures
        attrs_wf(spec_drop_attr(s, k)),
    decreases s.len(),
{
    if s.len() > 0 {
        lemma_drop_attr_wf(s.drop_first(), k);
        if s.first().0 != k {
            let d = spec_drop_attr(s.drop_first(), k);
            lemma_drop_attr_get(s.drop_first(), k, s.first().0);
            assert((seq![s.first()] + d).drop_first() =~= d);
        }
    }
}

/// A free-form attribute bag: a string-to-string mapping used to pass
/// late-bound parameters to a shard before it is spawned.
pub struct AttrBag {
    pairs: Vec<(String, String)>,
}

impl View for AttrBag {
    type V = Seq<(Seq<char>, Seq<char>)>;

    closed spec fn view(&self) -> Seq<(Seq<char>, Seq<char>)> {
        pair_views(self.pairs@)
    }
}

fn attr_get_from<'a>(pairs: &'a Vec<(String, String)>, i: usize, key: &String) -> (r: Option<
    &'a String,
>)
    requires
        i <= pairs@.len(),
    ensures
        match r {
            Some(v) => spec_attr_get(pair_views(pairs@.skip(i as int)), key@) == Some(v@),
            None => spec_attr_get(pair_views(pairs@.skip(i as int)), key@) is None,
        },
    decreases pairs@.len() - i,
{
    if i == pairs.len() {
        assert(pairs@.skip(i as int) =~= Seq::<(String, String)>::empty());
        None
    } else {
        let ghost tail = pair_views(pairs@.skip(i as int));
        assert(tail.first() == (pairs@[i as int].0@, pairs@[i as int].1@));
        assert(tail.drop_first() =~= pair_views(pairs@.skip(i as int + 1)));
        if pairs[i].0 == *key {
            Some(&pairs[i].1)
        } else {
            attr_get_from(pairs, i + 1, key)
        }
    }
}

fn attr_drop_key(pairs: &Vec<(String, String)>, i: usize, key: &String) -> (out: Vec<
    (String, String),
>)
    requires
        i <= pairs@.len(),
    ensures
        pair_views(out@) == spec_drop_attr(pair_views(pairs@.skip(i as int)), key@),
    decreases pairs@.len() - i,
{
    if i == pairs.len() {
        let out: Vec<(String, String)> = Vec::new();
        assert(pairs@.skip(i as int) =~= Seq::<(String, String)>::empty());
        assert(pair_views(out@) =~= spec_drop_attr(pair_views(pairs@.skip(i as int)), key@));
        out
    } else {
        let ghost tail = pair_views(pairs@.skip(i as int));
        assert(tail.first() == (pairs@[i as int].0@, pairs@[i as int].1@));
        assert(tail.drop_first() =~= pair_views(pairs@.skip(i as int + 1)));
        let mut rest = attr_drop_key(pairs, i + 1, key);
        if pairs[i].0 == *key {
            rest
        } else {
            let k = pairs[i].0.clone();
            let v = pairs[i].1.clone();
            rest.insert(0, (k, v));
            assert(pair_views(rest@) =~= seq![tail.first()] + spec_drop_attr(
                tail.drop_first(),
                key@,
            ));
            rest
        }
    }
}

impl AttrBag {
    /// An empty bag.
    pub fn new() -> (b: AttrBag)
        ensures
            b@.len() == 0,
            attrs_wf(b@),
    {
        let b = AttrBag { pairs: Vec::new() };
        assert(b@ =~= Seq::<(Seq<char>, Seq<char>)>::empty());
        b
    }

    /// The value stored under `key`, if any.
    pub fn get<'a>(&'a self, key: &String) -> (r: Option<&'a String>)
        ensures
            match r {
                Some(v) => spec_attr_get(self@, key@) == Some(v@),
                None => spec_attr_get(self@, key@) is None,
            },
    {
        assert(self.pairs@.skip(0) =~= self.pairs@);
        attr_get_from(&self.pairs, 0, key)
    }

    /// Binds `key` to `value`, replacing any earlier binding of the same key
    /// and leaving every other key untouched.
    pub fn insert(&mut self, key: String, value: String)
        ensures
            spec_attr_get(final(self)@, key@) == Some(value@),
            forall|k2: Seq<char>|
                k2 != key@ ==> #[trigger] spec_attr_get(final(self)@, k2) == spec_attr_get(
                    old(self)@,
                    k2,
                ),
            attrs_wf(old(self)@) ==> attrs_wf(final(self)@),
    {
        let ghost old_view = self@;
        assert(self.pairs@.skip(0) =~= self.pairs@);
        let mut out = attr_drop_key(&self.pairs, 0, &key);
        let ghost dropped = pair_views(out@);
        out.insert(0, (key, value));
        self.pairs = out;
        proof {
            assert(self@ =~= seq![(key@, value@)] + dropped);
            assert(self@.drop_first() =~= dropped);
            lemma_drop_attr_get(old_view, key@, key@);
            assert forall|k2: Seq<char>| k2 != key@ implies #[trigger] spec_attr_get(self@, k2)
                == spec_attr_get(old_view, k2) by {
                lemma_drop_attr_get(old_view, key@, k2);
            }
            if attrs_wf(old_view) {
                lemma_drop_attr_wf(old_view, key@);
            }
        }
    }

    /// The stored pairs, for callers that persist the whole bag.
    pub fn entries(&self) -> (r: &Vec<(String, String)>)
        ensures
            pair_views(r@) == self@,
    {
        &self.pairs
    }

    /// How many pairs the bag holds.
    pub fn len(&self) -> (n: usize)
        ensures
            n == self@.len(),
    {
        self.pairs.len()
    }
}

/// Everything one shard needs to run: its role, its metrics endpoint, and
/// the late-bound attributes written before it is spawned.
pub struct ShardConfig {
    pub role: Role,
    pub metrics_address: NetAddress,
    pub attrs: AttrBag,
}

/// First-match lookup of a shard id in a registry list.
pub open spec fn spec_shard_get(s: Seq<(ShardId, ShardConfig)>, id: ShardId) -> Option<ShardConfig>
    decreases s.len(),
{
    if s.len() == 0 {
        None
    } else if s.first().0 == id {
        Some(s.first().1)
    } else {
        spec_shard_get(s.drop_first(), id)
    }
}

/// Shard ids are unique in the list.
pub open spec fn registry_wf(s: Seq<(ShardId, ShardConfig)>) -> bool
    decreases s.len(),
{
    s.len() == 0 || (spec_shard_get(s.drop_first(), s.first().0) is None && registry_wf(
        s.drop_first(),
    ))
}

/// The configuration registry of one run: a mapping (unique ids, order
/// irrelevant) from shard id to per-shard configuration.
pub struct GlobalConfig {
    shards: Vec<(ShardId, ShardConfig)>,
}

impl View for GlobalConfig {
    type V = Seq<(ShardId, ShardConfig)>;

    closed spec fn view(&self) -> Seq<(ShardId, ShardConfig)> {
        self.shards@
    }
}

fn shard_get_from<'a>(shards: &'a Vec<(ShardId, ShardConfig)>, i: usize, id: ShardId) -> (r: Option<
    &'a ShardConfig,
>)
    requires
        i <= shards@.len(),
    ensures
        match r {
            Some(c) => spec_shard_get(shards@.skip(i as int), id) == Some(*c),
            None => spec_shard_get(shards@.skip(i as int), id) is None,
        },
    decreases shards@.len() - i,
{
    if i == shards.len() {
        assert(shards@.skip(i as int) =~= Seq::<(ShardId, ShardConfig)>::empty());
        None
    } else {
        assert(shards@.skip(i as int).drop_first() =~= shards@.skip(i as int + 1));
        if shards[i].0 == id {
            Some(&shards[i].1)
        } else {
            shard_get_from(shards, i + 1, id)
        }
    }
}

fn find_shard_from(shards: &Vec<(ShardId, ShardConfig)>, i: usize, id: ShardId) -> (r: Option<
    usize,
>)
    requires
        i <= shards@.len(),
    ensures
        match r {
            Some(j) => i <= j < shards@.len() && shards@[j as int].0 == id,
            None => spec_shard_get(shards@.skip(i as int), id) is None,
        },
    decreases shards@.len() - i,
{
    if i == shards.len() {
        assert(shards@.skip(i as int) =~= Seq::<(ShardId, ShardConfig)>::empty());
        None
    } else {
        assert(shards@.skip(i as int).drop_first() =~= shards@.skip(i as int + 1));
        if shards[i].0 == id {
            Some(i)
        } else {
            find_shard_from(shards, i + 1, id)
        }
    }
}

pub(crate) proof fn lemma_shard_present(s: Seq<(ShardId, ShardConfig)>, j: int, id: ShardId)
    requires
        0 <= j < s.len(),
        s[j].0 == id,
    ensures
        spec_shard_get(s, id) is Some,
    decreases j,
{
    if s.first().0 != id {
        lemma_shard_present(s.drop_first(), j - 1, id);
    }
}

/// An id above every stored id is absent; used when appending fresh ids in
/// increasing order.
pub(crate) proof fn lemma_shard_absent_above(s: Seq<(ShardId, ShardConfig)>, id: ShardId)
    requires
        forall|j: int| 0 <= j < s.len() ==> (#[trigger] s[j]).0 < id,
    ensures
        spec_shard_get(s, id) is None,
    decreases s.len(),
{
    if s.len() > 0 {
        lemma_shard_absent_above(s.drop_first(), id);
    }
}

/// An id equal to no stored id is absent.
pub(crate) proof fn lemma_shard_absent(s: Seq<(ShardId, ShardConfig)>, id: ShardId)
    requires
        forall|j: int| 0 <= j < s.len() ==> (#[trigger] s[j]).0 != id,
    ensures
        spec_shard_get(s, id) is None,
    decreases s.len(),
{
    if s.len() > 0 {
        lemma_shard_absent(s.drop_first(), id);
    }
}

/// A list whose stored ids are pairwise distinct is a well-formed registry.
pub(crate) proof fn lemma_distinct_ids_wf(s: Seq<(ShardId, ShardConfig)>)
    requires
        forall|i: int, j: int| 0 <= i < j < s.len() ==> s[i].0 != s[j].0,
    ensures
        registry_wf(s),
    decreases s.len(),
{
    if s.len() > 0 {
        let rest = s.drop_first();
        assert(forall|j: int| 0 <= j < rest.len() ==> (#[trigger] rest[j]).0 != s.first().0);
        lemma_shard_absent(rest, s.first().0);
        lemma_distinct_ids_wf(rest);
    }
}

impl GlobalConfig {
    /// An empty registry.
    pub fn new() -> (c: GlobalConfig)
        ensures
            c@.len() == 0,
            registry_wf(c@),
    {
        GlobalConfig { shards: Vec::new() }
    }

    /// The configuration of shard `id`, if the registry holds it.
    pub fn get<'a>(&'a self, id: ShardId) -> (r: Option<&'a ShardConfig>)
        ensures
            match r {
                Some(c) => spec_shard_get(self@, id) == Some(*c),
                None => spec_shard_get(self@, id) is None,
            },
    {
        assert(self.shards@.skip(0) =~= self.shards@);
        shard_get_from(&self.shards, 0, id)
    }

    /// Whether the registry holds shard `id`.
    pub fn contains(&self, id: ShardId) -> (r: bool)
        ensures
            r <==> spec_shard_get(self@, id) is Some,
    {
        self.get(id).is_some()
    }

    /// How many shards the registry holds.
    pub fn len(&self) -> (n: usize)
        ensures
            n == self@.len(),
    {
        self.shards.len()
    }

    /// The configuration at position `i`, for callers that walk the whole
    /// registry.
    pub fn entry_at(&self, i: usize) -> (r: (ShardId, &ShardConfig))
        requires
            i < self@.len(),
        ensures
            r.0 == self@[i as int].0,
            *r.1 == self@[i as int].1,
    {
        (self.shards[i].0, &self.shards[i].1)
    }

    /// Writes one attribute into the bag of shard `id`, leaving every other
    /// shard and every other attribute unchanged. Returns whether the
    /// registry holds `id`; an unknown id changes nothing. Attributes
    /// intended for a shard must be written before that shard is spawned:
    /// spawning captures a snapshot.
    pub fn set_attribute(&mut self, id: ShardId, key: String, value: String) -> (r: bool)
        ensures
            r <==> spec_shard_get(old(self)@, id) is Some,
            !r ==> final(self)@ == old(self)@,
            final(self)@.len() == old(self)@.len(),
            forall|i: int|
                0 <= i < old(self)@.len() ==> (#[trigger] final(self)@[i]).0 == old(self)@[i].0,
            r ==> exists|j: int|
                {
                    &&& 0 <= j < old(self)@.len()
                    &&& old(self)@[j].0 == id
                    &&& (forall|i: int|
                        0 <= i < old(self)@.len() && i != j ==> #[trigger] final(self)@[i] == old(
                            self,
                        )@[i])
                    &&& final(self)@[j].1.role == old(self)@[j].1.role
                    &&& final(self)@[j].1.metrics_address == old(self)@[j].1.metrics_address
                    &&& spec_attr_get(final(self)@[j].1.attrs@, key@) == Some(value@)
                    &&& (forall|k2: Seq<char>|
                        k2 != key@ ==> #[trigger] spec_attr_get(final(self)@[j].1.attrs@, k2)
                            == spec_attr_get(old(self)@[j].1.attrs@, k2))
                    &&& (attrs_wf(old(self)@[j].1.attrs@) ==> attrs_wf(final(self)@[j].1.attrs@))
                },
    {
        let ghost old_view = self.shards@;
        assert(self.shards@.skip(0) =~= self.shards@);
        match find_shard_from(&self.shards, 0, id) {
            None => false,
            Some(j) => {
                proof {
                    lemma_shard_present(old_view, j as int, id);
                }
                let (sid, mut cfg) = self.shards.remove(j);
                cfg.attrs.insert(key, value);
                self.shards.insert(j, (sid, cfg));
                proof {
                    assert forall|i: int| 0 <= i < old_view.len() && i != j implies #[trigger] self.shards@[i]
                        == old_view[i] by {}
                    assert(self.shards@[j as int].0 == old_view[j as int].0);
                }
                true
            },
        }
    }

    /// Appends a shard under an id the registry does not hold yet.
    pub fn push(&mut self, id: ShardId, cfg: ShardConfig)
        requires
            spec_shard_get(old(self)@, id) is None,
        ensures
            final(self)@ == old(self)@.push((id, cfg)),
    {
        self.shards.push((id, cfg));
    }
}

} // verus!
