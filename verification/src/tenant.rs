//! The tenant directory: the records of the provisioned tenants, found by
//! network, version and key.
use vstd::prelude::*;
use crate::table::KeyedTable;

verus! {

/// One provisioned tenant.
#[derive(Debug)]
pub struct Consumer {
    namespace: String,
    port_name: String,
    tier: String,
    key: String,
    network: String,
    pruned: bool,
}

/// A tenant record as plain values.
pub struct ConsumerView {
    pub namespace: Seq<char>,
    pub port_name: Seq<char>,
    pub tier: Seq<char>,
    pub key: Seq<char>,
    pub network: Seq<char>,
    pub pruned: bool,
}

impl View for Consumer {
    type V = ConsumerView;

    closed spec fn view(&self) -> ConsumerView {
        ConsumerView {
            namespace: self.namespace@,
            port_name: self.port_name@,
            tier: self.tier@,
            key: self.key@,
            network: self.network@,
            pruned: self.pruned,
        }
    }
}

impl Clone for Consumer {
    fn clone(&self) -> (copy: Self)
        ensures
            copy@ == self@,
    {
        Consumer {
            namespace: self.namespace.clone(),
            port_name: self.port_name.clone(),
            tier: self.tier.clone(),
            key: self.key.clone(),
            network: self.network.clone(),
            pruned: self.pruned,
        }
    }
}

impl Default for Consumer {
    fn default() -> (consumer: Self)
        ensures
            consumer@ == (ConsumerView {
                namespace: Seq::<char>::empty(),
                port_name: Seq::<char>::empty(),
                tier: Seq::<char>::empty(),
                key: Seq::<char>::empty(),
                network: Seq::<char>::empty(),
                pruned: true,
            }),
    {
        Consumer {
            namespace: String::new(),
            port_name: String::new(),
            tier: String::new(),
            key: String::new(),
            network: String::new(),
            pruned: true,
        }
    }
}

/// The text that separates the parts of a label or of a directory key.
pub open spec fn dot() -> Seq<char> {
    seq!['.']
}

impl Consumer {
    /// The record of a tenant that is served by the pruned backend, with no
    /// network named yet.
    pub fn new(namespace: String, port_name: String, tier: String, key: String) -> (consumer: Self)
        ensures
            consumer@ == (ConsumerView {
                namespace: namespace@,
                port_name: port_name@,
                tier: tier@,
                key: key@,
                network: Seq::<char>::empty(),
                pruned: true,
            }),
    {
        Consumer { namespace, port_name, key, tier, network: String::new(), pruned: true }
    }

    /// The same record for a tenant of `network`.
    pub fn with_network(self, network: String) -> (consumer: Self)
        ensures
            consumer@ == (ConsumerView { network: network@, ..self@ }),
    {
        Consumer { network, ..self }
    }

    /// The same record, served by the pruned backend or by the full one.
    pub fn with_pruned(self, pruned: bool) -> (consumer: Self)
        ensures
            consumer@ == (ConsumerView { pruned, ..self@ }),
    {
        Consumer { pruned, ..self }
    }

    /// The project that owns the tenant.
    pub fn namespace(&self) -> (namespace: &String)
        ensures
            namespace@ == self@.namespace,
    {
        &self.namespace
    }

    /// The name of the tenant's port resource.
    pub fn port_name(&self) -> (port_name: &String)
        ensures
            port_name@ == self@.port_name,
    {
        &self.port_name
    }

    /// The name of the tenant's tier.
    pub fn tier(&self) -> (tier: &String)
        ensures
            tier@ == self@.tier,
    {
        &self.tier
    }

    /// The tenant's key.
    pub fn key(&self) -> (key: &String)
        ensures
            key@ == self@.key,
    {
        &self.key
    }

    /// The network that the tenant was provisioned for.
    pub fn network(&self) -> (network: &String)
        ensures
            network@ == self@.network,
    {
        &self.network
    }

    /// Whether the tenant is served by the pruned backend.
    pub fn pruned(&self) -> (pruned: bool)
        ensures
            pruned == self@.pruned,
    {
        self.pruned
    }

    /// The tenant's label: namespace, a dot, port name.
    pub fn to_string(&self) -> (label: String)
        ensures
            label@ == self@.namespace + dot() + self@.port_name,
    {
        proof {
            reveal_strlit(".");
            assert("."@ =~= dot());
        }
        let mut label = self.namespace.clone();
        label.append(".");
        label.append(self.port_name.as_str());
        label
    }
}

/// The directory key of a tenant: network, version and key, joined by dots.
pub open spec fn directory_key(network: Seq<char>, version: Seq<char>, key: Seq<char>) -> Seq<
    char,
> {
    network + dot() + version + dot() + key
}

/// The directory key of a tenant.
pub fn hash_key(network: &str, version: &str, key: &str) -> (joined: String)
    ensures
        joined@ == directory_key(network@, version@, key@),
{
    proof {
        reveal_strlit(".");
        assert("."@ =~= dot());
    }
    let mut joined = String::from_str(network);
    joined.append(".");
    joined.append(version);
    joined.append(".");
    joined.append(key);
    joined
}

/// The tenant records in force, by directory key.
pub struct Directory {
    table: KeyedTable<Consumer>,
}

impl View for Directory {
    type V = Map<Seq<char>, ConsumerView>;

    closed spec fn view(&self) -> Map<Seq<char>, ConsumerView> {
        self.table.map().map_values(|c: Consumer| c@)
    }
}

impl Directory {
    /// A directory without records.
    pub fn new() -> (directory: Self)
        ensures
            directory@ == Map::<Seq<char>, ConsumerView>::empty(),
    {
        let directory = Directory { table: KeyedTable::new() };
        assert(directory@ =~= Map::<Seq<char>, ConsumerView>::empty());
        directory
    }

    /// Puts `record` under `key`, in place of the record that was there.
    pub fn upsert(&mut self, key: String, record: Consumer)
        ensures
            final(self)@ == old(self)@.insert(key@, record@),
    {
        self.table.insert(key, record);
        assert(self@ =~= old(self)@.insert(key@, record@));
    }

    /// Takes the record under `key` away.
    pub fn remove(&mut self, key: &str)
        ensures
            final(self)@ == old(self)@.remove(key@),
    {
        let _ = self.table.remove(key);
        assert(self@ =~= old(self)@.remove(key@));
    }

    /// The record under `key`.
    pub fn lookup(&self, key: &str) -> (found: Option<Consumer>)
        ensures
            match found {
                Some(record) => self@.contains_key(key@) && record@ == self@[key@],
                None => !self@.contains_key(key@),
            },
    {
        match self.table.get(key) {
            Some(record) => Some(record.clone()),
            None => None,
        }
    }

    /// The record of the tenant that reaches `network` at `version` with
    /// `key`.
    pub fn get_consumer(&self, network: &str, version: &str, key: &str) -> (found: Option<
        Consumer,
    >)
        ensures
            match found {
                Some(record) => {
                    &&& self@.contains_key(directory_key(network@, version@, key@))
                    &&& record@ == self@[directory_key(network@, version@, key@)]
                },
                None => !self@.contains_key(directory_key(network@, version@, key@)),
            },
    {
        let joined = hash_key(network, version, key);
        self.lookup(joined.as_str())
    }
}

/// One event of the control plane's watch feed.
#[derive(Debug)]
pub enum Feed {
    /// A tenant was provisioned or changed: its record stands under `key`
    /// from now on.
    Applied { key: String, record: Consumer },
    /// A tenant was removed.
    Deleted { key: String },
    /// The feed starts over with the full list of tenants as it is now;
    /// where a key occurs twice, the later record counts.
    Restarted { records: Vec<(String, Consumer)> },
}

/// An event of the feed as plain values.
pub enum FeedView {
    Applied { key: Seq<char>, record: ConsumerView },
    Deleted { key: Seq<char> },
    Restarted { records: Seq<(Seq<char>, ConsumerView)> },
}

impl View for Feed {
    type V = FeedView;

    open spec fn view(&self) -> FeedView {
        match self {
            Feed::Applied { key, record } => FeedView::Applied { key: key@, record: record@ },
            Feed::Deleted { key } => FeedView::Deleted { key: key@ },
            Feed::Restarted { records } => FeedView::Restarted {
                records: Seq::new(records@.len(), |i: int| (records@[i].0@, records@[i].1@)),
            },
        }
    }
}

/// The directory that holds exactly the listed records.
pub open spec fn listed(records: Seq<(Seq<char>, ConsumerView)>) -> Map<Seq<char>, ConsumerView>
    decreases records.len(),
{
    if records.len() == 0 {
        Map::<Seq<char>, ConsumerView>::empty()
    } else {
        listed(records.drop_last()).insert(records.last().0, records.last().1)
    }
}

/// The directory after an event of the feed.
pub open spec fn fed(directory: Map<Seq<char>, ConsumerView>, event: FeedView) -> Map<
    Seq<char>,
    ConsumerView,
> {
    match event {
        FeedView::Applied { key, record } => directory.insert(key, record),
        FeedView::Deleted { key } => directory.remove(key),
        FeedView::Restarted { records } => listed(records),
    }
}

impl Directory {
    /// Takes one event of the watch feed into the directory.
    pub fn apply(&mut self, event: Feed)
        ensures
            final(self)@ == fed(old(self)@, event@),
    {
        match event {
            Feed::Applied { key, record } => {
                self.upsert(key, record);
            },
            Feed::Deleted { key } => {
                self.remove(key.as_str());
            },
            Feed::Restarted { records } => {
                let ghost all = Seq::new(records@.len(), |i: int| (records@[i].0@, records@[i].1@));
                let mut fresh = Directory::new();
                let mut i: usize = 0;
                while i < records.len()
                    invariant
                        i <= records@.len(),
                        all == Seq::new(records@.len(), |i: int| (records@[i].0@, records@[i].1@)),
                        fresh@ == listed(all.take(i as int)),
                    decreases records@.len() - i,
                {
                    proof {
                        assert(all.take(i + 1).drop_last() =~= all.take(i as int));
                    }
                    fresh.upsert(records[i].0.clone(), records[i].1.clone());
                    i += 1;
                }
                assert(all.take(records@.len() as int) =~= all);
                *self = fresh;
            },
        }
    }
}

/// After a tenant was applied, a lookup under its key finds its record, and
/// after it was deleted, finds none; records under other keys are as they
/// were.
pub proof fn law_feed_is_seen_by_lookup(
    directory: Map<Seq<char>, ConsumerView>,
    key: Seq<char>,
    record: ConsumerView,
    other: Seq<char>,
)
    requires
        other != key,
    ensures
        fed(directory, FeedView::Applied { key, record }).contains_key(key),
        fed(directory, FeedView::Applied { key, record })[key] == record,
        !fed(directory, FeedView::Deleted { key }).contains_key(key),
        fed(directory, FeedView::Applied { key, record }).contains_key(other)
            == directory.contains_key(other),
        fed(directory, FeedView::Deleted { key }).contains_key(other) == directory.contains_key(
            other,
        ),
        directory.contains_key(other) ==> fed(directory, FeedView::Applied { key, record })[other]
            == directory[other] && fed(directory, FeedView::Deleted { key })[other]
            == directory[other],
{
}

} // verus!
