//! The prefix parser: a registry of units and other identifiers, and the
//! resolution of tokens against it.

use crate::diagnostic::diagnostic_with_labels;
use crate::diagnostic::diagnostic_with_message;
use crate::diagnostic::error_diagnostic;
use crate::diagnostic::label_with_message;
use crate::diagnostic::primary_label;
use crate::name_resolution::NameResolutionError;
use crate::prefix::Prefix;
use crate::prefix_table::prefix_entry;
use crate::prefix_table::prefix_table;
use crate::prefix_table::PrefixEntry;
use crate::prefix_table::PrefixForm;
use crate::prefix_table::PREFIX_COUNT;
use crate::registration::lemma_clash_at_first;
use crate::registration::lemma_empty_is_collision_free;
use crate::registration::lemma_new_identifier_keeps_collision_free;
use crate::registration::lemma_new_unit_keeps_collision_free;
use crate::resolution::entry_matches;
use crate::resolution::form_matches;
use crate::resolution::lemma_resolve_at_first_match;
use crate::resolution::lemma_resolve_without_match;
use crate::resolution::Registry;
use crate::resolution::Resolution;
use crate::resolution::UnitSpec;
use crate::span::Span;
use crate::text::prefixed;
use crate::text::strip_prefix;
use vstd::hash_map::StringHashMap;
use vstd::hash_set::StringHashSet;
use vstd::prelude::*;
use vstd::string::*;

verus! {

/// What a token resolves to.
#[derive(Debug, Clone, PartialEq)]
pub enum PrefixParserResult {
    /// The token is no unit, with or without prefix.
    Identifier(String),
    /// The prefix, the unit's name as registered (`m`), and the unit's full
    /// name (`meter`).
    UnitIdentifier(Prefix, String, String),
}

impl View for PrefixParserResult {
    type V = Resolution;

    open spec fn view(&self) -> Resolution {
        match self {
            PrefixParserResult::Identifier(name) => Resolution::Identifier(name@),
            PrefixParserResult::UnitIdentifier(prefix, unit_name, full_name) => {
                Resolution::UnitIdentifier(*prefix, unit_name@, full_name@)
            },
        }
    }
}

/// The spellings of a prefix that a unit takes.
#[derive(Debug, Clone, Copy, PartialEq, Eq, Structural)]
pub struct AcceptsPrefix {
    pub short: bool,
    pub long: bool,
}

impl AcceptsPrefix {
    pub fn only_long() -> (accepts: AcceptsPrefix)
        ensures
            accepts == (AcceptsPrefix { long: true, short: false }),
    {
        AcceptsPrefix { long: true, short: false }
    }

    pub fn only_short() -> (accepts: AcceptsPrefix)
        ensures
            accepts == (AcceptsPrefix { long: false, short: true }),
    {
        AcceptsPrefix { long: false, short: true }
    }

    pub fn both() -> (accepts: AcceptsPrefix)
        ensures
            accepts == (AcceptsPrefix { long: true, short: true }),
    {
        AcceptsPrefix { long: true, short: true }
    }

    pub fn none() -> (accepts: AcceptsPrefix)
        ensures
            accepts == (AcceptsPrefix { long: false, short: false }),
    {
        AcceptsPrefix { long: false, short: false }
    }

    pub open spec fn spec_accepts(&self, form: PrefixForm) -> bool {
        match form {
            PrefixForm::Long => self.long,
            PrefixForm::Short => self.short,
        }
    }

    /// Whether a prefix may stand in the spelling `form`.
    #[verifier::when_used_as_spec(spec_accepts)]
    pub fn accepts(&self, form: PrefixForm) -> (answer: bool)
        ensures
            answer == self.spec_accepts(form),
    {
        match form {
            PrefixForm::Long => self.long,
            PrefixForm::Short => self.short,
        }
    }
}

#[derive(Debug, Clone)]
struct UnitInfo {
    accepts_prefix: AcceptsPrefix,
    metric_prefixes: bool,
    binary_prefixes: bool,
    full_name: String,
}

impl View for UnitInfo {
    type V = UnitSpec;

    closed spec fn view(&self) -> UnitSpec {
        UnitSpec {
            accepts_prefix: self.accepts_prefix,
            metric_prefixes: self.metric_prefixes,
            binary_prefixes: self.binary_prefixes,
            full_name: self.full_name@,
        }
    }
}

/// A registry of units and other identifiers that resolves tokens.
pub struct PrefixParser {
    units: StringHashMap<UnitInfo>,
    other_identifiers: StringHashSet,
}

/// The units of the model for the units that the parser holds.
spec fn unit_specs(units: Map<Seq<char>, UnitInfo>) -> Map<Seq<char>, UnitSpec> {
    units.map_values(|info: UnitInfo| info@)
}

proof fn lemma_unit_specs_insert(units: Map<Seq<char>, UnitInfo>, name: Seq<char>, info: UnitInfo)
    ensures
        unit_specs(units.insert(name, info)) == unit_specs(units).insert(name, info@),
{
}

impl View for PrefixParser {
    type V = Registry;

    closed spec fn view(&self) -> Registry {
        Registry { units: unit_specs(self.units@), other_identifiers: self.other_identifiers@ }
    }
}

impl PrefixParser {
    /// A parser that knows no name.
    pub fn new() -> (parser: PrefixParser)
        ensures
            parser@ == Registry::empty(),
            parser@.collision_free(),
    {
        proof {
            lemma_empty_is_collision_free();
            assert(unit_specs(Map::<Seq<char>, UnitInfo>::empty()) =~= Map::empty());
        }
        PrefixParser { units: StringHashMap::new(), other_identifiers: StringHashSet::new() }
    }

    /// The prefix table, in the order in which `parse` tries its entries.
    pub fn prefixes() -> (entries: Vec<PrefixEntry>)
        ensures
            entries@.len() == prefix_table().len(),
            forall|i: int|
                0 <= i < entries@.len() ==> (#[trigger] entries@[i])@ == prefix_table()[i],
    {
        let mut entries: Vec<PrefixEntry> = Vec::new();
        let mut index: usize = 0;
        while index < PREFIX_COUNT
            invariant
                index <= PREFIX_COUNT,
                prefix_table().len() == PREFIX_COUNT,
                entries@.len() == index,
                forall|i: int| 0 <= i < index ==> (#[trigger] entries@[i])@ == prefix_table()[i],
            decreases PREFIX_COUNT - index,
        {
            entries.push(prefix_entry(index));
            index += 1;
        }
        entries
    }

    /// The error for a definition at `definition_span` whose name `name` is
    /// already in use.
    fn identifier_clash_error(&self, name: &str, definition_span: Span) -> (error:
        NameResolutionError)
        ensures
            error.is_clash(name@, definition_span),
    {
        let label = label_with_message(
            primary_label(
                definition_span.code_source_index,
                definition_span.start.byte,
                definition_span.end.byte,
            ),
            "Identifier is already in use",
        );
        let diagnostic = diagnostic_with_labels(
            diagnostic_with_message(error_diagnostic(), "identifier clash in definition"),
            vec![label],
        );
        NameResolutionError::IdentifierClash(name.to_owned(), diagnostic)
    }

    /// Succeeds where nothing has claimed `name`; else reports the clash.
    fn ensure_name_is_available(&self, name: &str, definition_span: Span) -> (result: Result<
        (),
        NameResolutionError,
    >)
        ensures
            result is Ok <==> self@.is_available(name@),
            result matches Err(error) ==> error.is_clash(name@, definition_span),
    {
        if self.other_identifiers.contains(name) {
            return Err(self.identifier_clash_error(name, definition_span));
        }
        match self.parse(name) {
            PrefixParserResult::Identifier(_) => Ok(()),
            PrefixParserResult::UnitIdentifier(_, _, _) => {
                Err(self.identifier_clash_error(name, definition_span))
            },
        }
    }

    /// Like `ensure_name_is_available`, for the name that the spelling `form`
    /// of `entry` makes of `unit_name`.
    fn ensure_form_is_available(
        &self,
        entry: &PrefixEntry,
        form: PrefixForm,
        unit_name: &str,
        definition_span: Span,
    ) -> (result: Result<(), NameResolutionError>)
        ensures
            result is Ok <==> self@.is_available(entry@.spelling(form) + unit_name@),
            result matches Err(error) ==> error.is_clash(
                entry@.spelling(form) + unit_name@,
                definition_span,
            ),
    {
        let name = prefixed(entry.spelling(form), unit_name);
        self.ensure_name_is_available(name.as_str(), definition_span)
    }

    /// Registers the unit `unit_name`, with the prefix spellings and families
    /// that it takes and its full name.
    ///
    /// The unit reserves its own name and every prefixed form that it takes.
    /// Where one of these is taken the definition is refused, the error names
    /// the first such name (the unit's own name first, then the prefixed
    /// forms in table order, long before short), and the parser is unchanged.
    /// Else the unit is registered, and nothing else changes.
    pub fn add_unit(
        &mut self,
        unit_name: &str,
        accepts_prefix: AcceptsPrefix,
        metric: bool,
        binary: bool,
        full_name: &str,
        definition_span: Span,
    ) -> (result: Result<(), NameResolutionError>)
        ensures
            result is Err ==> final(self)@ == old(self)@,
            old(self)@.collision_free() ==> final(self)@.collision_free(),
            ({
                let unit = UnitSpec {
                    accepts_prefix,
                    metric_prefixes: metric,
                    binary_prefixes: binary,
                    full_name: full_name@,
                };
                match old(self)@.first_clash(unit_name@, unit) {
                    Some(taken) => {
                        &&& result matches Err(error) && error.is_clash(taken, definition_span)
                        &&& final(self)@ == old(self)@
                    },
                    None => {
                        &&& result is Ok
                        &&& final(self)@ == old(self)@.with_unit(unit_name@, unit)
                    },
                }
            }),
    {
        let ghost unit = UnitSpec {
            accepts_prefix,
            metric_prefixes: metric,
            binary_prefixes: binary,
            full_name: full_name@,
        };
        match self.ensure_name_is_available(unit_name, definition_span) {
            Err(error) => {
                return Err(error);
            },
            Ok(()) => {},
        }
        let mut index: usize = 0;
        while index < PREFIX_COUNT
            invariant
                index <= PREFIX_COUNT,
                prefix_table().len() == PREFIX_COUNT,
                *self == *old(self),
                self@.is_available(unit_name@),
                unit == (UnitSpec {
                    accepts_prefix,
                    metric_prefixes: metric,
                    binary_prefixes: binary,
                    full_name: full_name@,
                }),
                forall|earlier: int|
                    0 <= earlier < index ==> self@.entry_clash(
                        unit_name@,
                        unit,
                        #[trigger] prefix_table()[earlier],
                    ) is None,
            decreases PREFIX_COUNT - index,
        {
            let entry = prefix_entry(index);
            if entry.prefix.is_metric() && metric || entry.prefix.is_binary() && binary {
                if accepts_prefix.long {
                    match self.ensure_form_is_available(
                        &entry,
                        PrefixForm::Long,
                        unit_name,
                        definition_span,
                    ) {
                        Err(error) => {
                            proof {
                                lemma_clash_at_first(self@, unit_name@, unit, index as int);
                            }
                            return Err(error);
                        },
                        Ok(()) => {},
                    }
                }
                if accepts_prefix.short {
                    match self.ensure_form_is_available(
                        &entry,
                        PrefixForm::Short,
                        unit_name,
                        definition_span,
                    ) {
                        Err(error) => {
                            proof {
                                lemma_clash_at_first(self@, unit_name@, unit, index as int);
                            }
                            return Err(error);
                        },
                        Ok(()) => {},
                    }
                }
            }
            index += 1;
        }
        let info = UnitInfo {
            accepts_prefix,
            metric_prefixes: metric,
            binary_prefixes: binary,
            full_name: full_name.to_owned(),
        };
        proof {
            if self@.collision_free() {
                lemma_new_unit_keeps_collision_free(self@, unit_name@, unit);
            }
            lemma_unit_specs_insert(self.units@, unit_name@, info);
        }
        self.units.insert(unit_name.to_owned(), info);
        Ok(())
    }

    /// Registers `identifier` as a name that is no unit.
    ///
    /// Where the name is taken the definition is refused and the parser is
    /// unchanged. Else the name is registered, and nothing else changes.
    pub fn add_other_identifier(&mut self, identifier: &str, definition_span: Span) -> (result:
        Result<(), NameResolutionError>)
        ensures
            result is Err ==> final(self)@ == old(self)@,
            old(self)@.collision_free() ==> final(self)@.collision_free(),
            if old(self)@.is_available(identifier@) {
                &&& result is Ok
                &&& final(self)@ == old(self)@.with_other_identifier(identifier@)
            } else {
                &&& result matches Err(error) && error.is_clash(identifier@, definition_span)
                &&& final(self)@ == old(self)@
            },
    {
        match self.ensure_name_is_available(identifier, definition_span) {
            Err(error) => {
                return Err(error);
            },
            Ok(()) => {},
        }
        proof {
            if self@.collision_free() {
                lemma_new_identifier_keeps_collision_free(self@, identifier@);
            }
        }
        if self.other_identifiers.insert(identifier.to_owned()) {
            Ok(())
        } else {
            Err(self.identifier_clash_error(identifier, definition_span))
        }
    }

    /// Tries to split `input` into the spelling `form` of `entry` and the
    /// name of a unit that takes the entry's prefix in that spelling.
    fn parse_prefixed(
        &self,
        input: &str,
        input_length: usize,
        entry: &PrefixEntry,
        form: PrefixForm,
    ) -> (found: Option<PrefixParserResult>)
        requires
            input_length == input@.len(),
        ensures
            found is Some <==> form_matches(self@.units, input@, entry@, form),
            found matches Some(result) ==> {
                let rest = input@.skip(entry@.spelling(form).len() as int);
                result@ == Resolution::UnitIdentifier(
                    entry.prefix,
                    rest,
                    self@.units[rest].full_name,
                )
            },
    {
        let prefix = entry.prefix;
        match strip_prefix(input, input_length, entry.spelling(form)) {
            Some(rest) => match self.units.get(rest) {
                Some(info) => {
                    if info.accepts_prefix.accepts(form) && (prefix.is_metric()
                        && info.metric_prefixes || prefix.is_binary() && info.binary_prefixes) {
                        Some(
                            PrefixParserResult::UnitIdentifier(
                                prefix,
                                rest.to_owned(),
                                info.full_name.clone(),
                            ),
                        )
                    } else {
                        None
                    }
                },
                None => None,
            },
            None => None,
        }
    }

    /// Resolves the token `input`.
    pub fn parse(&self, input: &str) -> (result: PrefixParserResult)
        ensures
            result@ == self@.resolve(input@),
    {
        if let Some(info) = self.units.get(input) {
            return PrefixParserResult::UnitIdentifier(
                Prefix::none(),
                input.to_owned(),
                info.full_name.clone(),
            );
        }
        let input_length = input.unicode_len();
        let mut index: usize = 0;
        while index < PREFIX_COUNT
            invariant
                index <= PREFIX_COUNT,
                prefix_table().len() == PREFIX_COUNT,
                input_length == input@.len(),
                !self@.units.contains_key(input@),
                forall|earlier: int|
                    0 <= earlier < index ==> !entry_matches(
                        self@.units,
                        input@,
                        #[trigger] prefix_table()[earlier],
                    ),
            decreases PREFIX_COUNT - index,
        {
            let entry = prefix_entry(index);
            if let Some(result) = self.parse_prefixed(
                input,
                input_length,
                &entry,
                PrefixForm::Long,
            ) {
                proof {
                    lemma_resolve_at_first_match(self@.units, input@, index as int);
                }
                return result;
            }
            if let Some(result) = self.parse_prefixed(
                input,
                input_length,
                &entry,
                PrefixForm::Short,
            ) {
                proof {
                    lemma_resolve_at_first_match(self@.units, input@, index as int);
                }
                return result;
            }
            index += 1;
        }
        proof {
            lemma_resolve_without_match(self@.units, input@);
        }
        PrefixParserResult::Identifier(input.to_owned())
    }
}

} // verus!
