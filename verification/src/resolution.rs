//! The mathematical model of the registry and of resolution.
//!
//! A [`Registry`] is what a prefix parser knows: the registered units and the
//! other identifiers. [`Registry::resolve`] says what every token means in it.

use crate::prefix::Prefix;
use crate::prefix_parser::AcceptsPrefix;
use crate::prefix_table::lemma_table_entries_are_proper;
use crate::prefix_table::prefix_table;
use crate::prefix_table::PrefixForm;
use crate::prefix_table::PrefixSpelling;
use crate::text::lemma_prefix_joins;
use vstd::prelude::*;

verus! {

/// What the registry keeps for one unit.
pub struct UnitSpec {
    /// The prefix spellings that the unit takes.
    pub accepts_prefix: AcceptsPrefix,
    /// Whether the unit takes metric prefixes.
    pub metric_prefixes: bool,
    /// Whether the unit takes binary prefixes.
    pub binary_prefixes: bool,
    /// The display name; several units may share one.
    pub full_name: Seq<char>,
}

impl UnitSpec {
    /// The unit takes prefixes of the family of `prefix`.
    pub open spec fn admits(self, prefix: Prefix) -> bool {
        (prefix.is_metric() && self.metric_prefixes) || (prefix.is_binary()
            && self.binary_prefixes)
    }

    /// The unit takes `prefix` in the spelling `form`.
    pub open spec fn takes(self, prefix: Prefix, form: PrefixForm) -> bool {
        self.accepts_prefix.accepts(form) && self.admits(prefix)
    }
}

/// The meaning of a token.
pub enum Resolution {
    /// The token is no unit, with or without prefix. Holds the token.
    Identifier(Seq<char>),
    /// The token is a unit under a prefix. Holds the prefix, the unit's name
    /// as registered, and the unit's full name.
    UnitIdentifier(Prefix, Seq<char>, Seq<char>),
}

/// `input` is the spelling `form` of `entry` followed by the name of a unit of
/// `units` that takes the prefix in that spelling.
pub open spec fn form_matches(
    units: Map<Seq<char>, UnitSpec>,
    input: Seq<char>,
    entry: PrefixSpelling,
    form: PrefixForm,
) -> bool {
    let rest = input.skip(entry.spelling(form).len() as int);
    &&& entry.spelling(form).is_prefix_of(input)
    &&& units.contains_key(rest)
    &&& units[rest].takes(entry.prefix, form)
}

/// `input` can be split under `entry`, in one spelling or the other.
pub open spec fn entry_matches(
    units: Map<Seq<char>, UnitSpec>,
    input: Seq<char>,
    entry: PrefixSpelling,
) -> bool {
    form_matches(units, input, entry, PrefixForm::Long) || form_matches(
        units,
        input,
        entry,
        PrefixForm::Short,
    )
}

/// What `input` means under an entry that matches it. The long spelling goes
/// before the short one.
pub open spec fn entry_resolution(
    units: Map<Seq<char>, UnitSpec>,
    input: Seq<char>,
    entry: PrefixSpelling,
) -> Resolution {
    let form = if form_matches(units, input, entry, PrefixForm::Long) {
        PrefixForm::Long
    } else {
        PrefixForm::Short
    };
    let rest = input.skip(entry.spelling(form).len() as int);
    Resolution::UnitIdentifier(entry.prefix, rest, units[rest].full_name)
}

/// The entry at `index` is the first of the prefix table that matches `input`.
pub open spec fn is_first_match(
    units: Map<Seq<char>, UnitSpec>,
    input: Seq<char>,
    index: int,
) -> bool {
    &&& 0 <= index < prefix_table().len()
    &&& entry_matches(units, input, prefix_table()[index])
    &&& forall|earlier: int|
        0 <= earlier < index ==> !entry_matches(units, input, #[trigger] prefix_table()[earlier])
}

/// The meaning of the token `input` among the units `units`.
///
/// A token that is a unit's name is that unit without prefix. Otherwise the
/// first entry of the prefix table that splits it decides. A token that no
/// entry splits is an identifier.
pub open spec fn resolve_among(units: Map<Seq<char>, UnitSpec>, input: Seq<char>) -> Resolution {
    if units.contains_key(input) {
        Resolution::UnitIdentifier(Prefix::none(), input, units[input].full_name)
    } else if exists|index: int| is_first_match(units, input, index) {
        let index = choose|index: int| is_first_match(units, input, index);
        entry_resolution(units, input, prefix_table()[index])
    } else {
        Resolution::Identifier(input)
    }
}

/// The registered units, by name, and the other identifiers.
pub struct Registry {
    pub units: Map<Seq<char>, UnitSpec>,
    pub other_identifiers: Set<Seq<char>>,
}

impl Registry {
    /// The registry without any name.
    pub open spec fn empty() -> Registry {
        Registry { units: Map::empty(), other_identifiers: Set::empty() }
    }

    /// This registry with the unit `unit` under `name`.
    pub open spec fn with_unit(self, name: Seq<char>, unit: UnitSpec) -> Registry {
        Registry { units: self.units.insert(name, unit), ..self }
    }

    /// This registry with the other identifier `name`.
    pub open spec fn with_other_identifier(self, name: Seq<char>) -> Registry {
        Registry { other_identifiers: self.other_identifiers.insert(name), ..self }
    }

    /// The meaning of the token `input`. The other identifiers have no part
    /// in it.
    pub open spec fn resolve(self, input: Seq<char>) -> Resolution {
        resolve_among(self.units, input)
    }
}

/// At most one entry is the first to match.
pub proof fn lemma_first_match_is_unique(
    units: Map<Seq<char>, UnitSpec>,
    input: Seq<char>,
    first: int,
    second: int,
)
    requires
        is_first_match(units, input, first),
        is_first_match(units, input, second),
    ensures
        first == second,
{
}

/// Where the entry at `index` is the first to match a token that is no unit's
/// name, the token resolves as that entry says.
pub proof fn lemma_resolve_at_first_match(
    units: Map<Seq<char>, UnitSpec>,
    input: Seq<char>,
    index: int,
)
    requires
        !units.contains_key(input),
        is_first_match(units, input, index),
    ensures
        resolve_among(units, input) == entry_resolution(units, input, prefix_table()[index]),
{
    let chosen = choose|index: int| is_first_match(units, input, index);
    lemma_first_match_is_unique(units, input, index, chosen);
}

/// A token that is no unit's name and that no entry matches is an identifier.
pub proof fn lemma_resolve_without_match(units: Map<Seq<char>, UnitSpec>, input: Seq<char>)
    requires
        !units.contains_key(input),
        forall|index: int|
            0 <= index < prefix_table().len() ==> !entry_matches(
                units,
                input,
                #[trigger] prefix_table()[index],
            ),
    ensures
        resolve_among(units, input) == Resolution::Identifier(input),
{
}

/// Where some entry matches, some entry is the first to match.
pub proof fn lemma_match_has_first(units: Map<Seq<char>, UnitSpec>, input: Seq<char>, index: int)
    requires
        0 <= index < prefix_table().len(),
        entry_matches(units, input, prefix_table()[index]),
    ensures
        exists|first: int| is_first_match(units, input, first) && first <= index,
    decreases index,
{
    if exists|earlier: int|
        0 <= earlier < index && entry_matches(units, input, #[trigger] prefix_table()[earlier]) {
        let earlier = choose|earlier: int|
            0 <= earlier < index && entry_matches(units, input, #[trigger] prefix_table()[earlier]);
        lemma_match_has_first(units, input, earlier);
    } else {
        assert(is_first_match(units, input, index));
    }
}

/// A token that resolves to an identifier is no unit's name, and no entry
/// matches it.
pub proof fn lemma_identifier_has_no_match(units: Map<Seq<char>, UnitSpec>, input: Seq<char>)
    requires
        resolve_among(units, input) is Identifier,
    ensures
        !units.contains_key(input),
        forall|index: int|
            0 <= index < prefix_table().len() ==> !entry_matches(
                units,
                input,
                #[trigger] prefix_table()[index],
            ),
{
    assert forall|index: int| 0 <= index < prefix_table().len() implies !entry_matches(
        units,
        input,
        #[trigger] prefix_table()[index],
    ) by {
        if entry_matches(units, input, prefix_table()[index]) {
            lemma_match_has_first(units, input, index);
        }
    }
}

/// Resolution is total, and a unit it names is registered: every token
/// resolves either to the identifier that it is, or to a registered unit with
/// that unit's full name.
pub proof fn lemma_resolve_is_total(registry: Registry, input: Seq<char>)
    ensures
        match registry.resolve(input) {
            Resolution::Identifier(name) => name == input,
            Resolution::UnitIdentifier(_, unit_name, full_name) => {
                &&& registry.units.contains_key(unit_name)
                &&& full_name == registry.units[unit_name].full_name
            },
        },
{
}

/// A token that resolves to an identifier resolves to itself.
pub proof fn lemma_identifier_is_the_input(registry: Registry, input: Seq<char>, name: Seq<char>)
    requires
        registry.resolve(input) == Resolution::Identifier(name),
    ensures
        name == input,
{
}

/// The whole token as a unit goes before any split: the name of a registered
/// unit resolves to that unit without prefix.
pub proof fn lemma_unit_name_resolves_to_the_unit(registry: Registry, unit_name: Seq<char>)
    requires
        registry.units.contains_key(unit_name),
    ensures
        registry.resolve(unit_name) == Resolution::UnitIdentifier(
            Prefix::none(),
            unit_name,
            registry.units[unit_name].full_name,
        ),
{
}

/// A resolution under a prefix is a split of the token: some entry of the
/// table carries the prefix, the token is one of the entry's spellings followed
/// by the unit's name, the unit is registered with the full name given, and it
/// takes the prefix in that spelling and family.
pub proof fn lemma_prefixed_resolution_is_a_split(
    registry: Registry,
    input: Seq<char>,
    prefix: Prefix,
    unit_name: Seq<char>,
    full_name: Seq<char>,
)
    requires
        registry.resolve(input) == Resolution::UnitIdentifier(prefix, unit_name, full_name),
        prefix != Prefix::none(),
    ensures
        registry.units.contains_key(unit_name),
        full_name == registry.units[unit_name].full_name,
        exists|index: int|
            {
                let entry = #[trigger] prefix_table()[index];
                &&& 0 <= index < prefix_table().len()
                &&& entry.prefix == prefix
                &&& registry.units[unit_name].admits(prefix)
                &&& exists|form: PrefixForm|
                    {
                        &&& input == #[trigger] entry.spelling(form) + unit_name
                        &&& registry.units[unit_name].accepts_prefix.accepts(form)
                    }
            },
{
    let units = registry.units;
    let index = choose|index: int| is_first_match(units, input, index);
    let entry = prefix_table()[index];
    let form = if form_matches(units, input, entry, PrefixForm::Long) {
        PrefixForm::Long
    } else {
        PrefixForm::Short
    };
    lemma_prefix_joins(entry.spelling(form), input);
}

/// A prefix attaches only to a unit that takes its family: a resolution under
/// a binary prefix names a unit with binary prefixes, and one under a metric
/// prefix names a unit with metric prefixes. The no-prefix value, which counts
/// as metric, is the one that every unit takes.
pub proof fn lemma_prefix_family_is_admitted(
    registry: Registry,
    input: Seq<char>,
    prefix: Prefix,
    unit_name: Seq<char>,
    full_name: Seq<char>,
)
    requires
        registry.resolve(input) == Resolution::UnitIdentifier(prefix, unit_name, full_name),
    ensures
        prefix.is_binary() ==> registry.units[unit_name].binary_prefixes,
        prefix.is_metric() && prefix != Prefix::none() ==> registry.units[unit_name].metric_prefixes,
{
    if prefix != Prefix::none() {
        lemma_prefixed_resolution_is_a_split(registry, input, prefix, unit_name, full_name);
    }
}

/// A resolution without prefix is the exact match of a unit's name.
pub proof fn lemma_unprefixed_resolution_is_exact(
    registry: Registry,
    input: Seq<char>,
    unit_name: Seq<char>,
    full_name: Seq<char>,
)
    requires
        registry.resolve(input) == Resolution::UnitIdentifier(
            Prefix::none(),
            unit_name,
            full_name,
        ),
    ensures
        unit_name == input,
        registry.units.contains_key(input),
{
    lemma_table_entries_are_proper();
}

} // verus!
