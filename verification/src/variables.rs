//! The variable store: a snapshot of the process environment beside the
//! variables that the user has set.

use crate::table::{
    distinct_names, entries_of, lemma_listing_is_exact, lemma_mapping_names, mapping_of, named_at,
    Entry, Table,
};
use vstd::prelude::*;

verus! {

/// The variables of one session. The two tables are separate namespaces: a
/// name may stand in both, and neither hides the other.
pub struct Variables {
    /// The process environment as it was when it was last read.
    pub env_vars: Table,
    /// The variables that the user has set.
    pub custom_vars: Table,
}

/// The variable that was to be unset does not exist.
#[derive(Debug, PartialEq, Eq, Clone, Copy)]
pub struct VariableNotFound;

impl Variables {
    /// The environment snapshot as a mapping.
    pub open spec fn env(&self) -> Map<Seq<char>, Seq<char>> {
        self.env_vars@
    }

    /// The user's variables as a mapping.
    pub open spec fn custom(&self) -> Map<Seq<char>, Seq<char>> {
        self.custom_vars@
    }

    /// A store with the given environment and no custom variable.
    /// `environment` holds the pairs of the process environment as they were
    /// read; where a name comes twice the later pair counts.
    pub fn new(environment: &Vec<(String, String)>) -> (vars: Variables)
        ensures
            vars.env() == mapping_of(entries_of(environment@)),
            vars.custom() == Map::<Seq<char>, Seq<char>>::empty(),
    {
        Variables { env_vars: Table::from_pairs(environment), custom_vars: Table::new() }
    }

    /// Creates a custom variable or changes its value.
    pub fn set_var(&mut self, key: String, value: String)
        ensures
            final(self).custom() == old(self).custom().insert(key@, value@),
            final(self).env() == old(self).env(),
    {
        self.custom_vars.insert(key, value);
    }

    /// Removes a custom variable. Fails when there is none of that name, and
    /// then changes nothing. The environment is never touched.
    pub fn unset_var(&mut self, key: &String) -> (r: Result<(), VariableNotFound>)
        ensures
            r is Ok <==> old(self).custom().contains_key(key@),
            r is Ok ==> final(self).custom() == old(self).custom().remove(key@),
            r is Err ==> final(self).custom() == old(self).custom(),
            final(self).env() == old(self).env(),
    {
        if self.custom_vars.remove(key) {
            Ok(())
        } else {
            assert(old(self).custom().remove(key@) =~= old(self).custom());
            Err(VariableNotFound)
        }
    }

    /// Replaces the environment snapshot by `environment`, read as in `new`.
    /// The custom variables stay as they are.
    pub fn refresh_env_vars(&mut self, environment: &Vec<(String, String)>)
        ensures
            final(self).env() == mapping_of(entries_of(environment@)),
            final(self).custom() == old(self).custom(),
    {
        self.env_vars = Table::from_pairs(environment);
    }

    /// Lists the custom variables and then the environment, each name once
    /// with its value.
    pub fn list_all(&self) -> (lists: (Vec<(String, String)>, Vec<(String, String)>))
        ensures
            distinct_names(entries_of(lists.0@)),
            mapping_of(entries_of(lists.0@)) == self.custom(),
            distinct_names(entries_of(lists.1@)),
            mapping_of(entries_of(lists.1@)) == self.env(),
    {
        (self.custom_vars.pairs(), self.env_vars.pairs())
    }
}

/// Setting and then listing: where `listing` lists the variables after `key`
/// was set to `value`, it holds that pair and no other pair of that name;
/// and where no variable was set before, it holds nothing else.
pub proof fn lemma_set_then_list(
    before: Map<Seq<char>, Seq<char>>,
    key: Seq<char>,
    value: Seq<char>,
    listing: Seq<Entry>,
)
    requires
        distinct_names(listing),
        mapping_of(listing) == before.insert(key, value),
    ensures
        listing.contains((key, value)),
        forall|other: Seq<char>| listing.contains((key, other)) ==> other == value,
        before == Map::<Seq<char>, Seq<char>>::empty() ==> listing == seq![(key, value)],
{
    lemma_listing_is_exact(listing, key, value);
    assert forall|other: Seq<char>| listing.contains((key, other)) implies other == value by {
        lemma_listing_is_exact(listing, key, other);
    }
    if before == Map::<Seq<char>, Seq<char>>::empty() {
        assert forall|i: int| 0 <= i < listing.len() implies (#[trigger] listing[i]).0 == key by {
            lemma_mapping_names(listing, listing[i].0);
            assert(named_at(listing, listing[i].0, i));
        }
        if listing.len() >= 2 {
            assert(listing[0].0 != listing[1].0);
        }
        let i = choose|i: int| 0 <= i < listing.len() && listing[i] == (key, value);
        assert(listing =~= seq![(key, value)]);
    }
}

} // verus!
