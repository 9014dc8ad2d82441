//! The tier policy file: from its text to the tiers in force, and the
//! reload that swaps them in.
use vstd::prelude::*;
use crate::limiter::{
    decision_at,
    law_check_enforces_limit,
    within_one_window,
    CounterView,
    Decision,
    Limiter,
};
use crate::tiers::{
    tier_of_entries,
    ConfigError,
    Field,
    FieldView,
    Tier,
    TierRate,
    TierRegistry,
    TierView,
};
use crate::toml_doc::{
    entries,
    integer,
    items,
    member,
    parse_document,
    parsed_document,
    text,
    value_entries,
    value_integer,
    value_items,
    value_member,
    value_text,
};

verus! {

/// The key of the document under which the list of tiers stands.
pub open spec fn tiers_key() -> Seq<char> {
    seq!['t', 'i', 'e', 'r', 's']
}

/// What a tier can use of a value: its text, else its integer.
pub open spec fn field_of(value: toml::Value) -> FieldView {
    match text(value) {
        Some(inner) => FieldView::Text(inner),
        None => match integer(value) {
            Some(number) => FieldView::Integer(number),
            None => FieldView::Other,
        },
    }
}

/// A table's entries, each value reduced to what a tier can use of it.
pub open spec fn table_fields(pairs: Seq<(Seq<char>, toml::Value)>) -> Seq<
    (Seq<char>, FieldView),
> {
    Seq::new(pairs.len(), |i: int| (pairs[i].0, field_of(pairs[i].1)))
}

/// The tier that one element of the list describes.
pub open spec fn tier_of_value(value: toml::Value) -> Result<TierView, ConfigError> {
    match entries(value) {
        Some(pairs) => tier_of_entries(table_fields(pairs)),
        None => Err(ConfigError::TierNotATable),
    }
}

/// The tiers that the elements of the list describe; the first element that
/// describes none decides the error.
pub open spec fn tiers_of_values(values: Seq<toml::Value>) -> Result<Seq<TierView>, ConfigError>
    decreases values.len(),
{
    if values.len() == 0 {
        Ok(Seq::<TierView>::empty())
    } else {
        match tiers_of_values(values.drop_last()) {
            Ok(tiers) => match tier_of_value(values.last()) {
                Ok(tier) => Ok(tiers.push(tier)),
                Err(error) => Err(error),
            },
            Err(error) => Err(error),
        }
    }
}

/// The tiers that a policy text describes. A document without `tiers`
/// describes no policy at all, which is not an error.
pub open spec fn document_tiers(source: Seq<char>) -> Result<Option<Seq<TierView>>, ConfigError> {
    match parsed_document(source) {
        None => Err(ConfigError::Syntax),
        Some(document) => match member(document, tiers_key()) {
            None => Ok(None),
            Some(list) => match items(list) {
                None => Err(ConfigError::TiersNotAList),
                Some(values) => match tiers_of_values(values) {
                    Ok(tiers) => Ok(Some(tiers)),
                    Err(error) => Err(error),
                },
            },
        },
    }
}

/// The registry that a list of tiers makes: each under its name, a later
/// tier in place of an earlier one of the same name.
pub open spec fn registry_of(tiers: Seq<TierView>) -> Map<Seq<char>, TierView>
    decreases tiers.len(),
{
    if tiers.len() == 0 {
        Map::<Seq<char>, TierView>::empty()
    } else {
        registry_of(tiers.drop_last()).insert(tiers.last().name, tiers.last())
    }
}

/// Views of a list of tiers.
pub open spec fn tier_views(tiers: Seq<Tier>) -> Seq<TierView> {
    Seq::new(tiers.len(), |i: int| tiers[i]@)
}

/// Once a prefix of the list fails, the whole list fails in the same way.
proof fn lemma_list_error_stays(values: Seq<toml::Value>, n: int)
    requires
        0 <= n <= values.len(),
    ensures
        tiers_of_values(values.take(n)) is Err ==> tiers_of_values(values) == tiers_of_values(
            values.take(n),
        ),
    decreases values.len() - n,
{
    if n == values.len() {
        assert(values.take(n) =~= values);
    } else {
        assert(values.take(n + 1).drop_last() =~= values.take(n));
        lemma_list_error_stays(values, n + 1);
    }
}

/// Reduces the entries of a table to what a tier can use of them.
fn read_fields(pairs: &Vec<(String, &toml::Value)>) -> (fields: Vec<(String, Field)>)
    ensures
        crate::tiers::entry_views(fields@) == table_fields(
            Seq::new(pairs@.len(), |i: int| (pairs@[i].0@, *pairs@[i].1)),
        ),
{
    let ghost plain = Seq::new(pairs@.len(), |i: int| (pairs@[i].0@, *pairs@[i].1));
    let mut fields: Vec<(String, Field)> = Vec::new();
    let mut i: usize = 0;
    while i < pairs.len()
        invariant
            i <= pairs@.len(),
            fields@.len() == i,
            plain == Seq::new(pairs@.len(), |i: int| (pairs@[i].0@, *pairs@[i].1)),
            forall|j: int|
                0 <= j < i ==> (#[trigger] fields@[j]).0@ == plain[j].0 && fields@[j].1@
                    == field_of(plain[j].1),
        decreases pairs@.len() - i,
    {
        let pair = &pairs[i];
        let field = match value_text(pair.1) {
            Some(inner) => Field::Text(String::from_str(inner)),
            None => match value_integer(pair.1) {
                Some(number) => Field::Integer(number),
                None => Field::Other,
            },
        };
        fields.push((pair.0.clone(), field));
        i += 1;
    }
    assert(crate::tiers::entry_views(fields@) =~= table_fields(plain));
    fields
}

/// The tier that one element of the list describes.
fn read_tier(value: &toml::Value) -> (read: Result<Tier, ConfigError>)
    ensures
        match read {
            Ok(tier) => tier_of_value(*value) == Ok::<TierView, ConfigError>(tier@),
            Err(error) => tier_of_value(*value) == Err::<TierView, ConfigError>(error),
        },
{
    match value_entries(value) {
        Some(pairs) => {
            let fields = read_fields(&pairs);
            Tier::from_entries(&fields)
        },
        None => Err(ConfigError::TierNotATable),
    }
}

/// The tiers that a policy text describes.
pub fn read_tiers(source: &str) -> (read: Result<Option<Vec<Tier>>, ConfigError>)
    ensures
        match read {
            Ok(Some(tiers)) => document_tiers(source@) == Ok::<
                Option<Seq<TierView>>,
                ConfigError,
            >(Some(tier_views(tiers@))),
            Ok(None) => document_tiers(source@) == Ok::<Option<Seq<TierView>>, ConfigError>(None),
            Err(error) => document_tiers(source@) == Err::<Option<Seq<TierView>>, ConfigError>(
                error,
            ),
        },
{
    proof {
        reveal_strlit("tiers");
        assert("tiers"@ =~= tiers_key());
    }
    let document = match parse_document(source) {
        Ok(document) => document,
        Err(_) => {
            return Err(ConfigError::Syntax);
        },
    };
    let list = match value_member(&document, "tiers") {
        Some(list) => list,
        None => {
            return Ok(None);
        },
    };
    let values = match value_items(list) {
        Some(values) => values,
        None => {
            return Err(ConfigError::TiersNotAList);
        },
    };
    let mut tiers: Vec<Tier> = Vec::new();
    let mut i: usize = 0;
    assert(tier_views(tiers@) =~= Seq::<TierView>::empty());
    while i < values.len()
        invariant
            i <= values@.len(),
            document_tiers(source@) == match tiers_of_values(values@) {
                Ok(all) => Ok::<Option<Seq<TierView>>, ConfigError>(Some(all)),
                Err(error) => Err::<Option<Seq<TierView>>, ConfigError>(error),
            },
            tiers_of_values(values@.take(i as int)) == Ok::<Seq<TierView>, ConfigError>(
                tier_views(tiers@),
            ),
        decreases values@.len() - i,
    {
        proof {
            assert(values@.take(i + 1).drop_last() =~= values@.take(i as int));
            lemma_list_error_stays(values@, i + 1);
        }
        match read_tier(&values[i]) {
            Ok(tier) => {
                let ghost before = tier_views(tiers@);
                tiers.push(tier);
                assert(tier_views(tiers@) =~= before.push(tier@));
            },
            Err(error) => {
                return Err(error);
            },
        }
        i += 1;
    }
    assert(values@.take(values@.len() as int) =~= values@);
    Ok(Some(tiers))
}

/// What a reload did.
#[derive(Clone, Copy, Debug, PartialEq, Eq, Structural)]
pub enum Reload {
    /// The tiers of the text are in force and every counter is forgotten.
    Applied,
    /// The text holds no `tiers`: nothing was changed.
    NotConfigured,
}

/// Puts the tiers of a policy text in force. Either all of them replace the
/// registry and the limiter forgets every key, or nothing changes: a text
/// that cannot be used leaves the registry and the limiter as they were.
pub fn update_tiers(registry: &mut TierRegistry, limiter: &mut Limiter, source: &str) -> (done:
    Result<Reload, ConfigError>)
    ensures
        match done {
            Ok(Reload::Applied) => {
                &&& document_tiers(source@) is Ok
                &&& document_tiers(source@).unwrap() is Some
                &&& final(registry)@ == registry_of(document_tiers(source@).unwrap().unwrap())
                &&& final(limiter)@ == Map::<Seq<char>, Seq<CounterView>>::empty()
            },
            Ok(Reload::NotConfigured) => {
                &&& document_tiers(source@) == Ok::<Option<Seq<TierView>>, ConfigError>(None)
                &&& final(registry)@ == old(registry)@
                &&& final(limiter)@ == old(limiter)@
            },
            Err(error) => {
                &&& document_tiers(source@) == Err::<Option<Seq<TierView>>, ConfigError>(error)
                &&& final(registry)@ == old(registry)@
                &&& final(limiter)@ == old(limiter)@
            },
        },
{
    let tiers = match read_tiers(source) {
        Ok(Some(tiers)) => tiers,
        Ok(None) => {
            return Ok(Reload::NotConfigured);
        },
        Err(error) => {
            return Err(error);
        },
    };
    let mut fresh = TierRegistry::new();
    let mut i: usize = 0;
    while i < tiers.len()
        invariant
            i <= tiers@.len(),
            fresh@ == registry_of(tier_views(tiers@).take(i as int)),
        decreases tiers@.len() - i,
    {
        proof {
            assert(tier_views(tiers@).take(i + 1).drop_last() =~= tier_views(tiers@).take(
                i as int,
            ));
        }
        fresh.define(tiers[i].clone());
        i += 1;
    }
    assert(tier_views(tiers@).take(tiers@.len() as int) =~= tier_views(tiers@));
    *registry = fresh;
    limiter.clear();
    Ok(Reload::Applied)
}

/// After a reload the counts of before are gone, whatever they were: a key's
/// next burst under a tier with the single rule `rule` is decided as a first
/// one. Its first `rule.limit` requests are allowed, the next is rejected.
pub proof fn law_reload_resets_counts(
    tiers: Map<Seq<char>, TierView>,
    key: Seq<char>,
    tier_name: Seq<char>,
    rule: TierRate,
    times: Seq<u64>,
)
    requires
        tiers.contains_key(tier_name),
        tiers[tier_name].rates == seq![rule],
        within_one_window(times, rule.interval),
    ensures
        forall|k: int|
            0 <= k < times.len() ==> #[trigger] decision_at(
                Map::<Seq<char>, Seq<CounterView>>::empty(),
                tiers,
                key,
                tier_name,
                times,
                k,
            ) == (if k < rule.limit {
                Decision::Allow
            } else {
                Decision::Reject
            }),
{
    law_check_enforces_limit(
        Map::<Seq<char>, Seq<CounterView>>::empty(),
        tiers,
        key,
        tier_name,
        rule,
        times,
    );
}

} // verus!
