//! Rate-limit policies: named tiers, each a list of window rules.
use vstd::prelude::*;
use crate::table::KeyedTable;
use crate::text::same_text;

verus! {

/// Length of the one-second window, in milliseconds.
pub const SECOND_MS: u64 = 1_000;

/// Length of the one-minute window, in milliseconds.
pub const MINUTE_MS: u64 = 60_000;

/// Length of the one-hour window, in milliseconds.
pub const HOUR_MS: u64 = 3_600_000;

/// Length of the one-day window, in milliseconds.
pub const DAY_MS: u64 = 86_400_000;

/// One rule of a tier: at most `limit` admitted requests in any trailing
/// window of `interval` milliseconds.
#[derive(Clone, Copy, Debug, PartialEq, Eq, Structural)]
pub struct TierRate {
    pub limit: u64,
    pub interval: u64,
}

/// A named rate-limit policy. A request passes the tier only if it passes
/// every one of its rules.
#[derive(Debug)]
pub struct Tier {
    name: String,
    rates: Vec<TierRate>,
}

/// What a tier is, as plain values.
pub struct TierView {
    pub name: Seq<char>,
    pub rates: Seq<TierRate>,
}

impl View for Tier {
    type V = TierView;

    closed spec fn view(&self) -> TierView {
        TierView { name: self.name@, rates: self.rates@ }
    }
}

impl Clone for Tier {
    fn clone(&self) -> (copy: Self)
        ensures
            copy@ == self@,
    {
        Tier { name: self.name.clone(), rates: copy_rates(&self.rates) }
    }
}

/// A copy of a list of rules.
pub fn copy_rates(rates: &Vec<TierRate>) -> (copy: Vec<TierRate>)
    ensures
        copy@ == rates@,
{
    let mut copy: Vec<TierRate> = Vec::new();
    let mut i: usize = 0;
    while i < rates.len()
        invariant
            i <= rates@.len(),
            copy@ == rates@.take(i as int),
        decreases rates@.len() - i,
    {
        copy.push(rates[i]);
        assert(rates@.take(i + 1) =~= rates@.take(i as int).push(rates@[i as int]));
        i += 1;
    }
    assert(rates@.take(rates@.len() as int) =~= rates@);
    copy
}

impl Tier {
    /// A tier with the given name and rules.
    pub fn new(name: String, rates: Vec<TierRate>) -> (tier: Self)
        ensures
            tier@ == (TierView { name: name@, rates: rates@ }),
    {
        Tier { name, rates }
    }

    /// The tier's name.
    pub fn name(&self) -> (name: &String)
        ensures
            name@ == self@.name,
    {
        &self.name
    }

    /// The tier's rules, in the order in which they are evaluated.
    pub fn rates(&self) -> (rates: &Vec<TierRate>)
        ensures
            rates@ == self@.rates,
    {
        &self.rates
    }
}

/// Why a policy text was turned down.
#[derive(Clone, Copy, Debug, PartialEq, Eq, Structural)]
pub enum ConfigError {
    /// The text is not a TOML document.
    Syntax,
    /// What stands under `tiers` is not a list.
    TiersNotAList,
    /// An element of the list is not a table.
    TierNotATable,
    /// A tier's `name` is not a string.
    InvalidName,
    /// A key of a tier is neither `name` nor one of the window symbols.
    InvalidSymbol,
    /// A window's limit is not a non-negative integer.
    InvalidLimit,
}

/// The value of one entry of a tier's table, as far as a tier can use it.
#[derive(Debug)]
pub enum Field {
    Text(String),
    Integer(i64),
    Other,
}

/// An entry's value as plain values.
pub enum FieldView {
    Text(Seq<char>),
    Integer(i64),
    Other,
}

impl View for Field {
    type V = FieldView;

    open spec fn view(&self) -> FieldView {
        match self {
            Field::Text(text) => FieldView::Text(text@),
            Field::Integer(number) => FieldView::Integer(*number),
            Field::Other => FieldView::Other,
        }
    }
}

/// The key under which a tier's name stands.
pub open spec fn name_key() -> Seq<char> {
    seq!['n', 'a', 'm', 'e']
}

/// The window that a symbol stands for, in milliseconds.
pub open spec fn symbol_interval(symbol: Seq<char>) -> Option<u64> {
    if symbol == seq!['s', 'e', 'c', 'o', 'n', 'd'] {
        Some(SECOND_MS)
    } else if symbol == seq!['m', 'i', 'n', 'u', 't', 'e'] {
        Some(MINUTE_MS)
    } else if symbol == seq!['h', 'o', 'u', 'r'] {
        Some(HOUR_MS)
    } else if symbol == seq!['d', 'a', 'y'] {
        Some(DAY_MS)
    } else {
        None
    }
}

/// A tier after one more entry of its table: `name` sets the name, a window
/// symbol adds a rule, anything else is an error.
pub open spec fn with_entry(tier: TierView, key: Seq<char>, field: FieldView) -> Result<
    TierView,
    ConfigError,
> {
    if key == name_key() {
        match field {
            FieldView::Text(name) => Ok(TierView { name, rates: tier.rates }),
            _ => Err(ConfigError::InvalidName),
        }
    } else {
        match symbol_interval(key) {
            None => Err(ConfigError::InvalidSymbol),
            Some(interval) => match field {
                FieldView::Integer(limit) if limit >= 0 => Ok(
                    TierView {
                        name: tier.name,
                        rates: tier.rates.push(TierRate { limit: limit as u64, interval }),
                    },
                ),
                _ => Err(ConfigError::InvalidLimit),
            },
        }
    }
}

/// The tier that a table's entries describe, read in their order; the first
/// entry that cannot be used decides the error. Only an entry that cannot be
/// used is an error: a table without `name` describes a tier with an empty
/// name, and a table without any window describes a tier without rules,
/// which lets every request pass.
pub open spec fn tier_of_entries(entries: Seq<(Seq<char>, FieldView)>) -> Result<
    TierView,
    ConfigError,
>
    decreases entries.len(),
{
    if entries.len() == 0 {
        Ok(TierView { name: Seq::<char>::empty(), rates: Seq::<TierRate>::empty() })
    } else {
        match tier_of_entries(entries.drop_last()) {
            Ok(tier) => with_entry(tier, entries.last().0, entries.last().1),
            Err(error) => Err(error),
        }
    }
}

/// The entries of a table as plain values.
pub open spec fn entry_views(entries: Seq<(String, Field)>) -> Seq<(Seq<char>, FieldView)> {
    Seq::new(entries.len(), |i: int| (entries[i].0@, entries[i].1@))
}

/// The window that a symbol stands for.
pub fn interval_of(symbol: &str) -> (interval: Option<u64>)
    ensures
        interval == symbol_interval(symbol@),
{
    proof {
        reveal_strlit("second");
        reveal_strlit("minute");
        reveal_strlit("hour");
        reveal_strlit("day");
        assert("second"@ =~= seq!['s', 'e', 'c', 'o', 'n', 'd']);
        assert("minute"@ =~= seq!['m', 'i', 'n', 'u', 't', 'e']);
        assert("hour"@ =~= seq!['h', 'o', 'u', 'r']);
        assert("day"@ =~= seq!['d', 'a', 'y']);
    }
    if same_text(symbol, "second") {
        Some(SECOND_MS)
    } else if same_text(symbol, "minute") {
        Some(MINUTE_MS)
    } else if same_text(symbol, "hour") {
        Some(HOUR_MS)
    } else if same_text(symbol, "day") {
        Some(DAY_MS)
    } else {
        None
    }
}

impl Tier {
    /// Adds one entry of a tier's table to the tier.
    fn visit_entry(self, key: &str, field: &Field) -> (visited: Result<Tier, ConfigError>)
        ensures
            match visited {
                Ok(tier) => with_entry(self@, key@, field@) == Ok::<TierView, ConfigError>(tier@),
                Err(error) => with_entry(self@, key@, field@) == Err::<TierView, ConfigError>(
                    error,
                ),
            },
    {
        proof {
            reveal_strlit("name");
            assert("name"@ =~= name_key());
        }
        if same_text(key, "name") {
            return match field {
                Field::Text(name) => Ok(Tier { name: name.clone(), rates: self.rates }),
                _ => Err(ConfigError::InvalidName),
            };
        }
        let interval = match interval_of(key) {
            Some(interval) => interval,
            None => {
                return Err(ConfigError::InvalidSymbol);
            },
        };
        match field {
            Field::Integer(limit) => {
                if *limit < 0 {
                    return Err(ConfigError::InvalidLimit);
                }
                let mut rates = self.rates;
                rates.push(TierRate { limit: *limit as u64, interval });
                Ok(Tier { name: self.name, rates })
            },
            _ => Err(ConfigError::InvalidLimit),
        }
    }

    /// The tier that the entries of one table describe.
    pub fn from_entries(entries: &Vec<(String, Field)>) -> (read: Result<Tier, ConfigError>)
        ensures
            match read {
                Ok(tier) => tier_of_entries(entry_views(entries@)) == Ok::<TierView, ConfigError>(
                    tier@,
                ),
                Err(error) => tier_of_entries(entry_views(entries@)) == Err::<
                    TierView,
                    ConfigError,
                >(error),
            },
    {
        let ghost all = entry_views(entries@);
        let mut tier = Tier { name: String::new(), rates: Vec::new() };
        let mut i: usize = 0;
        while i < entries.len()
            invariant
                i <= entries@.len(),
                all == entry_views(entries@),
                tier_of_entries(all.take(i as int)) == Ok::<TierView, ConfigError>(tier@),
            decreases entries@.len() - i,
        {
            proof {
                assert(all.take(i + 1).drop_last() =~= all.take(i as int));
                lemma_error_stays(all, i + 1);
            }
            let entry = &entries[i];
            match tier.visit_entry(entry.0.as_str(), &entry.1) {
                Ok(next) => {
                    tier = next;
                },
                Err(error) => {
                    return Err(error);
                },
            }
            i += 1;
        }
        assert(all.take(entries@.len() as int) =~= all);
        Ok(tier)
    }
}

/// Once a prefix of the entries fails, the whole list fails in the same way.
proof fn lemma_error_stays(entries: Seq<(Seq<char>, FieldView)>, n: int)
    requires
        0 <= n <= entries.len(),
    ensures
        tier_of_entries(entries.take(n)) is Err ==> tier_of_entries(entries) == tier_of_entries(
            entries.take(n),
        ),
    decreases entries.len() - n,
{
    if n == entries.len() {
        assert(entries.take(n) =~= entries);
    } else {
        assert(entries.take(n + 1).drop_last() =~= entries.take(n));
        lemma_error_stays(entries, n + 1);
    }
}

/// The set of tiers in force, by name.
pub struct TierRegistry {
    table: KeyedTable<Tier>,
}

impl View for TierRegistry {
    type V = Map<Seq<char>, TierView>;

    closed spec fn view(&self) -> Map<Seq<char>, TierView> {
        self.table.map().map_values(|t: Tier| t@)
    }
}

impl TierRegistry {
    /// A registry that defines no tier.
    pub fn new() -> (registry: Self)
        ensures
            registry@ == Map::<Seq<char>, TierView>::empty(),
    {
        let registry = TierRegistry { table: KeyedTable::new() };
        assert(registry@ =~= Map::<Seq<char>, TierView>::empty());
        registry
    }

    /// The tier of the given name.
    pub fn get(&self, name: &str) -> (found: Option<&Tier>)
        ensures
            match found {
                Some(tier) => self@.contains_key(name@) && tier@ == self@[name@],
                None => !self@.contains_key(name@),
            },
    {
        self.table.get(name)
    }

    /// Defines `tier` under its own name, in place of an earlier tier of that
    /// name.
    pub fn define(&mut self, tier: Tier)
        ensures
            final(self)@ == old(self)@.insert(tier@.name, tier@),
    {
        let name = tier.name.clone();
        self.table.insert(name, tier);
        assert(self@ =~= old(self)@.insert(tier@.name, tier@));
    }
}

} // verus!
