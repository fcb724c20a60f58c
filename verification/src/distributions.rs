//! Named series of historical rates of return.

use vstd::prelude::*;
use vstd::string::StringExecFns;
use crate::decimal::Decimal;
use crate::numeral::parse_decimal;
use crate::numeral::parsed;

verus! {

/// The map that a list of named series stands for. Where a name occurs more
/// than once, the entry nearest to the end of the list counts.
spec fn series_by_name(entries: Seq<(String, Vec<Decimal>)>) -> Map<
    Seq<char>,
    Seq<Decimal>,
>
    decreases entries.len(),
{
    if entries.len() == 0 {
        Map::empty()
    } else {
        series_by_name(entries.drop_last()).insert(entries.last().0@, entries.last().1@)
    }
}

/// An entry that no later entry of the same name hides is what the map holds
/// under its name.
proof fn lemma_last_match_counts(entries: Seq<(String, Vec<Decimal>)>, i: int)
    requires
        0 <= i < entries.len(),
        forall|k: int| i < k < entries.len() ==> (#[trigger] entries[k]).0@ != entries[i].0@,
    ensures
        series_by_name(entries).contains_key(entries[i].0@),
        series_by_name(entries)[entries[i].0@] == entries[i].1@,
    decreases entries.len(),
{
    if i < entries.len() - 1 {
        assert(entries.last().0@ != entries[i].0@);
        lemma_last_match_counts(entries.drop_last(), i);
    }
}

/// A name that no entry carries is not in the map.
proof fn lemma_no_match_no_key(entries: Seq<(String, Vec<Decimal>)>, name: Seq<char>)
    requires
        forall|k: int| 0 <= k < entries.len() ==> (#[trigger] entries[k]).0@ != name,
    ensures
        !series_by_name(entries).contains_key(name),
    decreases entries.len(),
{
    if entries.len() > 0 {
        assert(entries.last().0@ != name);
        lemma_no_match_no_key(entries.drop_last(), name);
    }
}

/// Replacing the entry that counts for a name is an insertion into the map.
proof fn lemma_replace_is_insert(
    entries: Seq<(String, Vec<Decimal>)>,
    i: int,
    entry: (String, Vec<Decimal>),
)
    requires
        0 <= i < entries.len(),
        entries[i].0@ == entry.0@,
        forall|k: int| i < k < entries.len() ==> (#[trigger] entries[k]).0@ != entry.0@,
    ensures
        series_by_name(entries.update(i, entry)) == series_by_name(entries).insert(
            entry.0@,
            entry.1@,
        ),
    decreases entries.len(),
{
    let replaced = entries.update(i, entry);
    if i == entries.len() - 1 {
        assert(replaced.drop_last() =~= entries.drop_last());
        assert(series_by_name(replaced) =~= series_by_name(entries).insert(entry.0@, entry.1@));
    } else {
        assert(entries.last().0@ != entry.0@);
        assert(replaced.drop_last() =~= entries.drop_last().update(i, entry));
        lemma_replace_is_insert(entries.drop_last(), i, entry);
        assert(series_by_name(replaced) =~= series_by_name(entries).insert(entry.0@, entry.1@));
    }
}

/// The names in the map are the names that the entries carry.
proof fn lemma_names_are_keys(entries: Seq<(String, Vec<Decimal>)>, name: Seq<char>)
    ensures
        series_by_name(entries).contains_key(name) <==> exists|i: int|
            0 <= i < entries.len() && (#[trigger] entries[i]).0@ == name,
    decreases entries.len(),
{
    if entries.len() > 0 {
        let before = entries.drop_last();
        lemma_names_are_keys(before, name);
        if series_by_name(entries).contains_key(name) {
            if entries.last().0@ == name {
                assert(entries[entries.len() - 1].0@ == name);
            } else {
                let i = choose|i: int| 0 <= i < before.len() && (#[trigger] before[i]).0@ == name;
                assert(entries[i].0@ == name);
            }
        }
        if exists|i: int| 0 <= i < entries.len() && (#[trigger] entries[i]).0@ == name {
            let i = choose|i: int| 0 <= i < entries.len() && (#[trigger] entries[i]).0@ == name;
            if i < before.len() {
                assert(before[i].0@ == name);
            }
        }
    }
}

/// Series of historical rates of return, each under its name.
#[derive(Debug)]
pub struct Distributions {
    entries: Vec<(String, Vec<Decimal>)>,
}

impl View for Distributions {
    type V = Map<Seq<char>, Seq<Decimal>>;

    closed spec fn view(&self) -> Map<Seq<char>, Seq<Decimal>> {
        series_by_name(self.entries@)
    }
}

impl Distributions {
    /// No name stands twice.
    #[verifier::type_invariant]
    spec fn distinct(self) -> bool {
        forall|i: int, j: int|
            0 <= i < j < self.entries@.len() ==> (#[trigger] self.entries@[i]).0@ != (
            #[trigger] self.entries@[j]).0@
    }

    /// No series at all.
    pub fn new() -> (distributions: Self)
        ensures
            distributions@ == Map::<Seq<char>, Seq<Decimal>>::empty(),
    {
        Distributions { entries: Vec::new() }
    }

    /// Where the entry that counts for `name` stands, if there is one.
    fn position(&self, name: &String) -> (found: Option<usize>)
        ensures
            match found {
                Some(i) => i < self.entries@.len() && self.entries@[i as int].0@ == name@
                    && forall|k: int|
                    i < k < self.entries@.len() ==> (#[trigger] self.entries@[k]).0@ != name@,
                None => forall|k: int|
                    0 <= k < self.entries@.len() ==> (#[trigger] self.entries@[k]).0@ != name@,
            },
    {
        let mut i = self.entries.len();
        while i > 0
            invariant
                i <= self.entries@.len(),
                forall|k: int|
                    i <= k < self.entries@.len() ==> (#[trigger] self.entries@[k]).0@ != name@,
            decreases i,
        {
            i = i - 1;
            if self.entries[i].0 == *name {
                return Some(i);
            }
        }
        None
    }

    /// Puts `series` under `name` and hands back the series that was there before.
    pub fn insert(&mut self, name: String, series: Vec<Decimal>) -> (previous: Option<Vec<Decimal>>)
        ensures
            final(self)@ == old(self)@.insert(name@, series@),
            match previous {
                Some(replaced) => old(self)@.contains_key(name@) && replaced@ == old(self)@[name@],
                None => !old(self)@.contains_key(name@),
            },
    {
        proof {
            use_type_invariant(&*self);
        }
        let found = self.position(&name);
        let mut taken = Distributions::new();
        core::mem::swap(self, &mut taken);
        let Distributions { entries } = taken;
        let mut entries = entries;
        let previous = match found {
            Some(i) => {
                proof {
                    lemma_last_match_counts(entries@, i as int);
                    lemma_replace_is_insert(entries@, i as int, (name, series));
                }
                let ghost before = entries@;
                let replaced = entries.remove(i);
                entries.insert(i, (name, series));
                assert(entries@ =~= before.update(i as int, (name, series)));
                Some(replaced.1)
            },
            None => {
                proof {
                    lemma_no_match_no_key(entries@, name@);
                    assert(entries@.push((name, series)).drop_last() =~= entries@);
                }
                entries.push((name, series));
                None
            },
        };
        *self = Distributions { entries };
        previous
    }

    /// The names under which a series stands, each once.
    pub fn names(&self) -> (names: Vec<String>)
        ensures
            forall|name: Seq<char>|
                self@.contains_key(name) <==> exists|i: int|
                    0 <= i < names@.len() && (#[trigger] names@[i])@ == name,
            forall|i: int, j: int|
                0 <= i < j < names@.len() ==> (#[trigger] names@[i])@ != (#[trigger] names@[j])@,
    {
        proof {
            use_type_invariant(self);
        }
        let mut names: Vec<String> = Vec::new();
        for i in 0..self.entries.len()
            invariant
                names@.len() == i,
                forall|k: int| 0 <= k < i ==> (#[trigger] names@[k])@ == self.entries@[k].0@,
        {
            names.push(self.entries[i].0.clone());
        }
        proof {
            assert forall|name: Seq<char>|
                self@.contains_key(name) <==> exists|i: int|
                    0 <= i < names@.len() && (#[trigger] names@[i])@ == name by {
                lemma_names_are_keys(self.entries@, name);
                if self@.contains_key(name) {
                    let i = choose|i: int|
                        0 <= i < self.entries@.len() && (#[trigger] self.entries@[i]).0@ == name;
                    assert(names@[i]@ == name);
                }
                if exists|i: int| 0 <= i < names@.len() && (#[trigger] names@[i])@ == name {
                    let i = choose|i: int| 0 <= i < names@.len() && (#[trigger] names@[i])@ == name;
                    assert(self.entries@[i].0@ == name);
                }
            }
        }
        names
    }

    /// The series that stands under `name`, if there is one.
    pub fn get(&self, name: &String) -> (series: Option<&Vec<Decimal>>)
        ensures
            match series {
                Some(found) => self@.contains_key(name@) && found@ == self@[name@],
                None => !self@.contains_key(name@),
            },
    {
        match self.position(name) {
            Some(i) => {
                proof {
                    lemma_last_match_counts(self.entries@, i as int);
                }
                Some(&self.entries[i].1)
            },
            None => {
                proof {
                    lemma_no_match_no_key(self.entries@, name@);
                }
                None
            },
        }
    }
}

/// The records that the `csv` crate reads from `data` with its default
/// settings: the first record is taken as a header and left out, and of each
/// record after it either the fields in order, as bytes, or nothing where the
/// crate reports an error for the record.
pub uninterp spec fn csv_records(data: Seq<u8>) -> Seq<Option<Seq<Seq<u8>>>>;

/// Reads `data` as CSV: `csv::ReaderBuilder::new`, `from_reader` on the bytes,
/// and `records` to the end. The result is what `csv_records` names; nothing
/// more is claimed of it.
#[verifier::external_body]
fn read_records(data: &[u8]) -> (records: Vec<Option<Vec<Vec<u8>>>>)
    ensures
        records.deep_view() == csv_records(data@),
{
    csv::ReaderBuilder::new()
        .from_reader(data)
        .records()
        .map(|record| record.ok().map(|fields| fields.iter().map(|f| f.as_bytes().to_vec()).collect()))
        .collect()
}

/// The rate that a record holds: its second field, read as a percentage.
/// There is none where the record has no second field or the field is no numeral.
pub open spec fn rate_of_record(fields: Seq<Seq<u8>>) -> Option<Decimal> {
    if fields.len() < 2 {
        None
    } else {
        match parsed(fields[1]) {
            Some(percentage) => Some(percentage.spec_hundredth()),
            None => None,
        }
    }
}

/// The rates that a run of records holds, in order. Records that could not be
/// read are passed over. There is no series where a record holds no rate.
pub open spec fn rates_of_records(records: Seq<Option<Seq<Seq<u8>>>>) -> Option<Seq<Decimal>>
    decreases records.len(),
{
    if records.len() == 0 {
        Some(Seq::empty())
    } else {
        match (rates_of_records(records.drop_last()), records.last()) {
            (None, _) => None,
            (Some(before), None) => Some(before),
            (Some(before), Some(fields)) => match rate_of_record(fields) {
                Some(rate) => Some(before.push(rate)),
                None => None,
            },
        }
    }
}

/// What a result of rates is in contracts.
pub open spec fn rates_view(rates: Option<Vec<Decimal>>) -> Option<Seq<Decimal>> {
    match rates {
        Some(list) => Some(list@),
        None => None,
    }
}

/// Once a record holds no rate, no longer run of records has a series.
proof fn lemma_no_series_is_kept(records: Seq<Option<Seq<Seq<u8>>>>, n: int)
    requires
        0 <= n <= records.len(),
        rates_of_records(records.take(n)) is None,
    ensures
        rates_of_records(records) is None,
    decreases records.len() - n,
{
    if n < records.len() {
        assert(records.take(n + 1).drop_last() =~= records.take(n));
        lemma_no_series_is_kept(records, n + 1);
    } else {
        assert(records.take(n) =~= records);
    }
}

/// Takes the rate out of every record, in order.
pub fn rates_from_records(records: &Vec<Option<Vec<Vec<u8>>>>) -> (rates: Option<Vec<Decimal>>)
    ensures
        rates_view(rates) == rates_of_records(records.deep_view()),
{
    let ghost all = records.deep_view();
    let mut rates: Vec<Decimal> = Vec::new();
    for i in 0..records.len()
        invariant
            all == records.deep_view(),
            rates_of_records(all.take(i as int)) == Some(rates@),
    {
        proof {
            assert(all.take(i + 1).drop_last() =~= all.take(i as int));
            assert(all.take(i + 1).last() == records@[i as int].deep_view());
        }
        match &records[i] {
            None => {},
            Some(fields) => {
                assert(records@[i as int].deep_view() == Some(fields.deep_view()));
                if fields.len() < 2 {
                    proof {
                        lemma_no_series_is_kept(all, i + 1);
                    }
                    return None;
                }
                assert(fields.deep_view()[1] == fields@[1]@);
                match parse_decimal(fields[1].as_slice()) {
                    Some(percentage) => {
                        rates.push(percentage.hundredth());
                    },
                    None => {
                        proof {
                            lemma_no_series_is_kept(all, i + 1);
                        }
                        return None;
                    },
                }
            },
        }
    }
    proof {
        assert(all.take(records@.len() as int) =~= all);
    }
    Some(rates)
}

/// Reads a series of rates from CSV text whose second column holds one
/// percentage per record.
pub fn parse_distribution(data: &[u8]) -> (rates: Option<Vec<Decimal>>)
    ensures
        rates_view(rates) == rates_of_records(csv_records(data@)),
{
    let records = read_records(data);
    rates_from_records(&records)
}

/// The series of the S&P 500 and of the MSCI World index, each read from its
/// CSV text and put under its name. There is no result where one of the texts
/// has no series.
pub fn get_distributions(sp500: &[u8], msci_world: &[u8]) -> (distributions: Option<Distributions>)
    ensures
        match distributions {
            Some(loaded) => rates_of_records(csv_records(sp500@)) is Some && rates_of_records(
                csv_records(msci_world@),
            ) is Some && loaded@ == Map::<Seq<char>, Seq<Decimal>>::empty().insert(
                "sp500"@,
                rates_of_records(csv_records(sp500@))->Some_0,
            ).insert("msci_world"@, rates_of_records(csv_records(msci_world@))->Some_0),
            None => rates_of_records(csv_records(sp500@)) is None || rates_of_records(
                csv_records(msci_world@),
            ) is None,
        },
{
    let sp500_dist = match parse_distribution(sp500) {
        Some(rates) => rates,
        None => {
            return None;
        },
    };
    let msci_world_dist = match parse_distribution(msci_world) {
        Some(rates) => rates,
        None => {
            return None;
        },
    };
    let mut distributions = Distributions::new();
    distributions.insert(String::from_str("sp500"), sp500_dist);
    distributions.insert(String::from_str("msci_world"), msci_world_dist);
    Some(distributions)
}

} // verus!
