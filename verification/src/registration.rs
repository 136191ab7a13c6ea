//! Registration in the model: which name stands in the way of a definition,
//! and why a registry that grows by accepted definitions stays free of
//! collisions.

use crate::prefix_table::lemma_table_entries_are_proper;
use crate::prefix_table::lemma_table_spellings_are_distinct;
use crate::prefix_table::prefix_table;
use crate::prefix_table::PrefixForm;
use crate::prefix_table::PrefixSpelling;
use crate::resolution::entry_matches;
use crate::resolution::entry_resolution;
use crate::resolution::form_matches;
use crate::resolution::is_first_match;
use crate::resolution::lemma_identifier_has_no_match;
use crate::resolution::lemma_match_has_first;
use crate::resolution::lemma_resolve_at_first_match;
use crate::resolution::lemma_resolve_without_match;
use crate::resolution::Registry;
use crate::resolution::Resolution;
use crate::resolution::UnitSpec;
use crate::text::lemma_prefix_joins;
use crate::text::lemma_prefixed_is_injective;
use crate::text::lemma_prefixed_splits;
use vstd::prelude::*;

verus! {

/// A unit `unit` called `name` reserves `token` as the spelling `form` of the
/// entry at `index`, followed by its name.
pub open spec fn reserves_form(
    name: Seq<char>,
    unit: UnitSpec,
    token: Seq<char>,
    index: int,
    form: PrefixForm,
) -> bool {
    &&& 0 <= index < prefix_table().len()
    &&& unit.takes(prefix_table()[index].prefix, form)
    &&& token == prefix_table()[index].spelling(form) + name
}

/// A unit `unit` called `name` reserves `token`: its own name, and each
/// spelling that it takes of each prefix that it admits, followed by its name.
pub open spec fn reserves(name: Seq<char>, unit: UnitSpec, token: Seq<char>) -> bool {
    token == name || exists|index: int, form: PrefixForm|
        reserves_form(name, unit, token, index, form)
}

impl Registry {
    /// Nothing has claimed `name`: it is no other identifier, no unit, and no
    /// prefixed form of a unit.
    pub open spec fn is_available(self, name: Seq<char>) -> bool {
        &&& !self.other_identifiers.contains(name)
        &&& self.resolve(name) is Identifier
    }

    /// The unit `unit` called `name` would reserve, in the spelling `form` of
    /// `entry`, a name that is taken.
    pub open spec fn form_clashes(
        self,
        name: Seq<char>,
        unit: UnitSpec,
        entry: PrefixSpelling,
        form: PrefixForm,
    ) -> bool {
        unit.takes(entry.prefix, form) && !self.is_available(entry.spelling(form) + name)
    }

    /// The first name that is taken among those that a unit `unit` called
    /// `name` would reserve through `entry`: the long form goes before the
    /// short one.
    pub open spec fn entry_clash(
        self,
        name: Seq<char>,
        unit: UnitSpec,
        entry: PrefixSpelling,
    ) -> Option<Seq<char>> {
        if self.form_clashes(name, unit, entry, PrefixForm::Long) {
            Some(entry.long + name)
        } else if self.form_clashes(name, unit, entry, PrefixForm::Short) {
            Some(entry.short + name)
        } else {
            None
        }
    }

    /// The entry at `index` is the first of the prefix table through which
    /// the unit would reserve a name that is taken.
    pub open spec fn is_first_clash(self, name: Seq<char>, unit: UnitSpec, index: int) -> bool {
        &&& 0 <= index < prefix_table().len()
        &&& self.entry_clash(name, unit, prefix_table()[index]) is Some
        &&& forall|earlier: int|
            0 <= earlier < index ==> self.entry_clash(
                name,
                unit,
                #[trigger] prefix_table()[earlier],
            ) is None
    }

    /// The name that stands in the way of registering `unit` as `name`, if
    /// any: the unit's own name where that is taken, else the first prefixed
    /// form, in table order, that is taken.
    pub open spec fn first_clash(self, name: Seq<char>, unit: UnitSpec) -> Option<Seq<char>> {
        if !self.is_available(name) {
            Some(name)
        } else if exists|index: int| self.is_first_clash(name, unit, index) {
            let index = choose|index: int| self.is_first_clash(name, unit, index);
            self.entry_clash(name, unit, prefix_table()[index])
        } else {
            None
        }
    }

    /// Where the unit `name` takes the prefix of `entry` in the spelling
    /// `form`, that spelling followed by `name` resolves to the unit under
    /// that prefix.
    pub open spec fn keeps_reserved(
        self,
        name: Seq<char>,
        entry: PrefixSpelling,
        form: PrefixForm,
    ) -> bool {
        self.units[name].takes(entry.prefix, form) ==> self.resolve(entry.spelling(form) + name)
            == Resolution::UnitIdentifier(entry.prefix, name, self.units[name].full_name)
    }

    /// The namespace is flat and free of collisions: no other identifier
    /// resolves to a unit, and every prefixed form that a registered unit
    /// reserves resolves to that very unit under that very prefix.
    pub open spec fn collision_free(self) -> bool {
        &&& forall|name: Seq<char>|
            self.other_identifiers.contains(name) ==> #[trigger] self.resolve(name) is Identifier
        &&& forall|name: Seq<char>, index: int, form: PrefixForm|
            self.units.contains_key(name) && 0 <= index < prefix_table().len()
                ==> #[trigger] self.keeps_reserved(name, prefix_table()[index], form)
    }
}

/// At most one entry is the first to clash.
pub proof fn lemma_first_clash_is_unique(
    registry: Registry,
    name: Seq<char>,
    unit: UnitSpec,
    first: int,
    second: int,
)
    requires
        registry.is_first_clash(name, unit, first),
        registry.is_first_clash(name, unit, second),
    ensures
        first == second,
{
}

/// Where the unit's own name is free and the entry at `index` is the first to
/// clash, the clash is the one of that entry.
pub proof fn lemma_clash_at_first(registry: Registry, name: Seq<char>, unit: UnitSpec, index: int)
    requires
        registry.is_available(name),
        registry.is_first_clash(name, unit, index),
    ensures
        registry.first_clash(name, unit) == registry.entry_clash(
            name,
            unit,
            prefix_table()[index],
        ),
{
    let chosen = choose|index: int| registry.is_first_clash(name, unit, index);
    lemma_first_clash_is_unique(registry, name, unit, index, chosen);
}

/// Where some entry clashes, some entry is the first to clash.
pub proof fn lemma_clash_has_first(registry: Registry, name: Seq<char>, unit: UnitSpec, index: int)
    requires
        0 <= index < prefix_table().len(),
        registry.entry_clash(name, unit, prefix_table()[index]) is Some,
    ensures
        exists|first: int| registry.is_first_clash(name, unit, first) && first <= index,
    decreases index,
{
    if exists|earlier: int|
        0 <= earlier < index && registry.entry_clash(
            name,
            unit,
            #[trigger] prefix_table()[earlier],
        ) is Some {
        let earlier = choose|earlier: int|
            0 <= earlier < index && registry.entry_clash(
                name,
                unit,
                #[trigger] prefix_table()[earlier],
            ) is Some;
        lemma_clash_has_first(registry, name, unit, earlier);
    } else {
        assert(registry.is_first_clash(name, unit, index));
    }
}

/// A definition without clash reserves only names that are available.
pub proof fn lemma_reserved_name_is_available(
    registry: Registry,
    name: Seq<char>,
    unit: UnitSpec,
    token: Seq<char>,
)
    requires
        registry.first_clash(name, unit) is None,
        reserves(name, unit, token),
    ensures
        registry.is_available(token),
{
    if token != name {
        let (index, form) = choose|index: int, form: PrefixForm|
            reserves_form(name, unit, token, index, form);
        let entry = prefix_table()[index];
        if !registry.is_available(token) {
            lemma_clash_has_first(registry, name, unit, index);
        }
    }
}

/// A definition with a clash reserves the name that clashes, and that name is
/// not available.
pub proof fn lemma_clash_is_reserved(registry: Registry, name: Seq<char>, unit: UnitSpec)
    requires
        registry.first_clash(name, unit) is Some,
    ensures
        reserves(name, unit, registry.first_clash(name, unit)->Some_0),
        !registry.is_available(registry.first_clash(name, unit)->Some_0),
{
    if registry.is_available(name) {
        let index = choose|index: int| registry.is_first_clash(name, unit, index);
        let entry = prefix_table()[index];
        let token = registry.entry_clash(name, unit, entry)->Some_0;
        if registry.form_clashes(name, unit, entry, PrefixForm::Long) {
            assert(reserves_form(name, unit, token, index, PrefixForm::Long));
        } else {
            assert(reserves_form(name, unit, token, index, PrefixForm::Short));
        }
    }
}

/// Registration never redefines: a definition without clash is one of a name
/// that is no unit yet, so the units that were registered stay as they were.
pub proof fn lemma_accepted_unit_is_new(registry: Registry, name: Seq<char>, unit: UnitSpec)
    requires
        registry.first_clash(name, unit) is None,
    ensures
        !registry.units.contains_key(name),
        !registry.other_identifiers.contains(name),
        forall|other: Seq<char>| #[trigger]
            registry.units.contains_key(other) ==> {
                &&& registry.with_unit(name, unit).units.contains_key(other)
                &&& registry.with_unit(name, unit).units[other] == registry.units[other]
            },
{
}

/// A new unit changes the meaning of no token but those that it reserves.
pub proof fn lemma_new_unit_leaves_other_tokens(
    registry: Registry,
    name: Seq<char>,
    unit: UnitSpec,
    token: Seq<char>,
)
    requires
        !registry.units.contains_key(name),
        !reserves(name, unit, token),
    ensures
        registry.with_unit(name, unit).resolve(token) == registry.resolve(token),
{
    let before = registry.units;
    let after = registry.with_unit(name, unit).units;
    assert forall|index: int, form: PrefixForm| 0 <= index < prefix_table().len() implies (
    #[trigger] form_matches(after, token, prefix_table()[index], form)) == form_matches(
        before,
        token,
        prefix_table()[index],
        form,
    ) by {
        let spelling = prefix_table()[index].spelling(form);
        if spelling.is_prefix_of(token) && token.skip(spelling.len() as int) == name {
            lemma_prefix_joins(spelling, token);
            assert(!reserves_form(name, unit, token, index, form));
        }
    }
    assert forall|index: int| 0 <= index < prefix_table().len() implies {
        let entry = #[trigger] prefix_table()[index];
        &&& entry_matches(after, token, entry) == entry_matches(before, token, entry)
        &&& entry_matches(before, token, entry) ==> entry_resolution(after, token, entry)
            == entry_resolution(before, token, entry)
    } by {}
    if before.contains_key(token) {
    } else if exists|index: int| is_first_match(before, token, index) {
        let index = choose|index: int| is_first_match(before, token, index);
        lemma_resolve_at_first_match(after, token, index);
    } else {
        assert forall|index: int| 0 <= index < prefix_table().len() implies !entry_matches(
            after,
            token,
            #[trigger] prefix_table()[index],
        ) by {
            if entry_matches(before, token, prefix_table()[index]) {
                lemma_match_has_first(before, token, index);
            }
        }
        lemma_resolve_without_match(after, token);
    }
}

/// After a unit has been added under the name `name`, a token that meant
/// nothing before and that is `spelling` followed by `name` can be split in
/// one way only: by `spelling` itself.
proof fn lemma_form_of_new_unit_matches_once(
    registry: Registry,
    name: Seq<char>,
    unit: UnitSpec,
    spelling: Seq<char>,
    index: int,
    form: PrefixForm,
)
    requires
        (registry.resolve(spelling + name) is Identifier),
        0 <= index < prefix_table().len(),
        form_matches(
            registry.with_unit(name, unit).units,
            spelling + name,
            prefix_table()[index],
            form,
        ),
    ensures
        prefix_table()[index].spelling(form) == spelling,
{
    let token = spelling + name;
    let other = prefix_table()[index].spelling(form);
    lemma_identifier_has_no_match(registry.units, token);
    lemma_prefix_joins(other, token);
    lemma_prefixed_is_injective(other, spelling, name);
}

/// A new unit whose reserved names were all free takes each prefixed form
/// that it reserves: the form resolves to the new unit under that prefix.
pub proof fn lemma_new_unit_takes_its_forms(
    registry: Registry,
    name: Seq<char>,
    unit: UnitSpec,
    index: int,
    form: PrefixForm,
)
    requires
        registry.first_clash(name, unit) is None,
        0 <= index < prefix_table().len(),
    ensures
        registry.with_unit(name, unit).keeps_reserved(name, prefix_table()[index], form),
{
    let entry = prefix_table()[index];
    let before = registry.units;
    let after = registry.with_unit(name, unit).units;
    if unit.takes(entry.prefix, form) {
        let spelling = entry.spelling(form);
        let token = spelling + name;
        lemma_table_entries_are_proper();
        lemma_table_spellings_are_distinct();
        assert(reserves_form(name, unit, token, index, form));
        lemma_reserved_name_is_available(registry, name, unit, token);
        lemma_identifier_has_no_match(before, token);
        lemma_prefixed_splits(spelling, name);
        assert forall|earlier: int| 0 <= earlier < index implies !entry_matches(
            after,
            token,
            #[trigger] prefix_table()[earlier],
        ) by {
            let other = prefix_table()[earlier];
            if form_matches(after, token, other, PrefixForm::Long) {
                lemma_form_of_new_unit_matches_once(
                    registry,
                    name,
                    unit,
                    spelling,
                    earlier,
                    PrefixForm::Long,
                );
            }
            if form_matches(after, token, other, PrefixForm::Short) {
                lemma_form_of_new_unit_matches_once(
                    registry,
                    name,
                    unit,
                    spelling,
                    earlier,
                    PrefixForm::Short,
                );
            }
        }
        lemma_resolve_at_first_match(after, token, index);
        if form == PrefixForm::Short && form_matches(after, token, entry, PrefixForm::Long) {
            lemma_form_of_new_unit_matches_once(
                registry,
                name,
                unit,
                spelling,
                index,
                PrefixForm::Long,
            );
        }
    }
}

/// An accepted unit keeps the namespace free of collisions.
pub proof fn lemma_new_unit_keeps_collision_free(registry: Registry, name: Seq<char>, unit: UnitSpec)
    requires
        registry.collision_free(),
        registry.first_clash(name, unit) is None,
    ensures
        registry.with_unit(name, unit).collision_free(),
{
    let grown = registry.with_unit(name, unit);
    lemma_reserved_name_is_available(registry, name, unit, name);
    assert forall|other: Seq<char>| grown.other_identifiers.contains(other) implies (
    #[trigger] grown.resolve(other)) is Identifier by {
        if reserves(name, unit, other) {
            lemma_reserved_name_is_available(registry, name, unit, other);
        }
        lemma_new_unit_leaves_other_tokens(registry, name, unit, other);
    }
    assert forall|unit_name: Seq<char>, index: int, form: PrefixForm|
        grown.units.contains_key(unit_name) && 0 <= index < prefix_table().len()
            implies #[trigger] grown.keeps_reserved(unit_name, prefix_table()[index], form) by {
        let entry = prefix_table()[index];
        if unit_name == name {
            lemma_new_unit_takes_its_forms(registry, name, unit, index, form);
        } else {
            assert(registry.keeps_reserved(unit_name, entry, form));
            if registry.units[unit_name].takes(entry.prefix, form) {
                let token = entry.spelling(form) + unit_name;
                if reserves(name, unit, token) {
                    lemma_reserved_name_is_available(registry, name, unit, token);
                }
                lemma_new_unit_leaves_other_tokens(registry, name, unit, token);
            }
        }
    }
}

/// An accepted identifier keeps the namespace free of collisions.
pub proof fn lemma_new_identifier_keeps_collision_free(registry: Registry, name: Seq<char>)
    requires
        registry.collision_free(),
        registry.is_available(name),
    ensures
        registry.with_other_identifier(name).collision_free(),
{
    let grown = registry.with_other_identifier(name);
    assert forall|other: Seq<char>| grown.other_identifiers.contains(other) implies (
    #[trigger] grown.resolve(other)) is Identifier by {
        assert(registry.resolve(other) is Identifier);
    }
    assert forall|unit_name: Seq<char>, index: int, form: PrefixForm|
        grown.units.contains_key(unit_name) && 0 <= index < prefix_table().len()
            implies #[trigger] grown.keeps_reserved(unit_name, prefix_table()[index], form) by {
        assert(registry.keeps_reserved(unit_name, prefix_table()[index], form));
    }
}

/// The registry without any name is free of collisions.
pub proof fn lemma_empty_is_collision_free()
    ensures
        Registry::empty().collision_free(),
{
    let registry = Registry::empty();
    assert forall|name: Seq<char>| registry.other_identifiers.contains(name) implies (
    #[trigger] registry.resolve(name)) is Identifier by {}
}

/// In a namespace free of collisions a name that a registered unit reserves
/// resolves to that unit.
pub proof fn lemma_reserved_name_resolves_to_its_unit(
    registry: Registry,
    name: Seq<char>,
    token: Seq<char>,
)
    requires
        registry.collision_free(),
        registry.units.contains_key(name),
        reserves(name, registry.units[name], token),
    ensures
        registry.resolve(token) matches Resolution::UnitIdentifier(_, unit_name, full_name)
            && unit_name == name && full_name == registry.units[name].full_name,
{
    if token != name {
        let (index, form) = choose|index: int, form: PrefixForm|
            reserves_form(name, registry.units[name], token, index, form);
        assert(registry.keeps_reserved(name, prefix_table()[index], form));
    }
}

/// In a namespace free of collisions no name is reserved twice: a name that
/// two registered units reserve is reserved by one and the same unit, and no
/// other identifier is a name that a unit reserves.
pub proof fn lemma_reserved_names_have_one_owner(
    registry: Registry,
    first: Seq<char>,
    second: Seq<char>,
    token: Seq<char>,
)
    requires
        registry.collision_free(),
        registry.units.contains_key(first),
        reserves(first, registry.units[first], token),
    ensures
        !registry.other_identifiers.contains(token),
        registry.units.contains_key(second) && reserves(second, registry.units[second], token)
            ==> first == second,
{
    lemma_reserved_name_resolves_to_its_unit(registry, first, token);
    if registry.other_identifiers.contains(token) {
    }
    if registry.units.contains_key(second) && reserves(second, registry.units[second], token) {
        lemma_reserved_name_resolves_to_its_unit(registry, second, token);
    }
}

/// In a namespace free of collisions no name is both a unit and another
/// identifier.
pub proof fn lemma_units_and_identifiers_are_apart(registry: Registry, name: Seq<char>)
    requires
        registry.collision_free(),
    ensures
        !(registry.units.contains_key(name) && registry.other_identifiers.contains(name)),
{
    if registry.other_identifiers.contains(name) {
        assert(registry.resolve(name) is Identifier);
    }
}

} // verus!
