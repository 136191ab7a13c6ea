use numbat::prefix::Prefix;
use numbat::prefix_parser::AcceptsPrefix;
use numbat::prefix_parser::PrefixParser;
use numbat::prefix_parser::PrefixParserResult;
use numbat::prefix_table::PrefixForm;
use numbat::prefix_table::PREFIX_COUNT;
use numbat::span::Span;

fn unit(prefix: Prefix, name: &str, full_name: &str) -> PrefixParserResult {
    PrefixParserResult::UnitIdentifier(prefix, name.to_string(), full_name.to_string())
}

fn identifier(name: &str) -> PrefixParserResult {
    PrefixParserResult::Identifier(name.to_string())
}

fn seeded() -> PrefixParser {
    let mut parser = PrefixParser::new();
    let span = Span::dummy();
    parser.add_unit("meter", AcceptsPrefix::only_long(), true, false, "meter", span).unwrap();
    parser.add_unit("m", AcceptsPrefix::only_short(), true, false, "meter", span).unwrap();
    parser.add_unit("byte", AcceptsPrefix::only_long(), true, true, "byte", span).unwrap();
    parser.add_unit("B", AcceptsPrefix::only_short(), true, true, "byte", span).unwrap();
    parser.add_unit("me", AcceptsPrefix::only_short(), false, false, "me", span).unwrap();
    parser
}

#[test]
fn empty_parser_knows_no_unit() {
    let parser = PrefixParser::new();
    assert_eq!(parser.parse("meter"), identifier("meter"));
    assert_eq!(parser.parse("kilo"), identifier("kilo"));
    assert_eq!(parser.parse("k"), identifier("k"));
    assert_eq!(parser.parse(""), identifier(""));
}

#[test]
fn other_identifiers_resolve_to_themselves() {
    let mut parser = seeded();
    parser.add_other_identifier("speed", Span::dummy()).unwrap();
    assert_eq!(parser.parse("speed"), identifier("speed"));
}

#[test]
fn unit_names_resolve_without_prefix() {
    let parser = seeded();
    for (name, full_name) in [("meter", "meter"), ("m", "meter"), ("byte", "byte"), ("B", "byte"), ("me", "me")] {
        assert_eq!(parser.parse(name), unit(Prefix::none(), name, full_name));
    }
}

#[test]
fn every_result_is_the_token_or_a_registered_unit() {
    let parser = seeded();
    let registered = ["meter", "m", "byte", "B", "me"];
    let tokens = [
        "", "m", "mm", "mmm", "km", "kkm", "kilo", "kilom", "kilometer", "kilokilometer", "Kim", "KiB",
        "kibimeter", "kme", "mme", "damme", "dam", "decameter", "dameter", "µm", "µB", "microbyte",
        "yobibyte", "Yibyte", "YiB", "quettameter", "Qm", "byteB", "metre",
    ];
    for token in tokens {
        match parser.parse(token) {
            PrefixParserResult::Identifier(name) => assert_eq!(name, token),
            PrefixParserResult::UnitIdentifier(_, name, _) => {
                assert!(registered.contains(&name.as_str()));
            },
        }
    }
}

#[test]
fn every_admitted_form_resolves_to_its_unit() {
    let parser = seeded();
    for entry in PrefixParser::prefixes() {
        let long_meter = format!("{}meter", entry.long);
        let short_meter = format!("{}meter", entry.short);
        let long_m = format!("{}m", entry.long);
        let short_m = format!("{}m", entry.short);
        if entry.prefix.is_metric() {
            assert_eq!(parser.parse(&long_meter), unit(entry.prefix, "meter", "meter"));
            assert_eq!(parser.parse(&short_m), unit(entry.prefix, "m", "meter"));
        } else {
            assert_eq!(parser.parse(&long_meter), identifier(&long_meter));
            assert_eq!(parser.parse(&short_m), identifier(&short_m));
        }
        assert_eq!(parser.parse(&short_meter), identifier(&short_meter));
        assert_eq!(parser.parse(&long_m), identifier(&long_m));
        let long_byte = format!("{}byte", entry.long);
        let short_b = format!("{}B", entry.short);
        assert_eq!(parser.parse(&long_byte), unit(entry.prefix, "byte", "byte"));
        assert_eq!(parser.parse(&short_b), unit(entry.prefix, "B", "byte"));
        let long_me = format!("{}me", entry.long);
        let short_me = format!("{}me", entry.short);
        assert_eq!(parser.parse(&long_me), identifier(&long_me));
        assert_eq!(parser.parse(&short_me), identifier(&short_me));
    }
}

#[test]
fn binary_prefix_needs_a_binary_unit() {
    let parser = seeded();
    assert_eq!(parser.parse("kibimeter"), identifier("kibimeter"));
    assert_eq!(parser.parse("Kim"), identifier("Kim"));
    assert_eq!(parser.parse("Mim"), identifier("Mim"));
    assert_eq!(parser.parse("yobibyte"), unit(Prefix::Binary(80), "byte", "byte"));
}

#[test]
fn metric_prefix_needs_a_metric_unit() {
    let mut parser = PrefixParser::new();
    parser.add_unit("bit", AcceptsPrefix::both(), false, true, "bit", Span::dummy()).unwrap();
    assert_eq!(parser.parse("kilobit"), identifier("kilobit"));
    assert_eq!(parser.parse("kbit"), identifier("kbit"));
    assert_eq!(parser.parse("kibibit"), unit(Prefix::kibi(), "bit", "bit"));
    assert_eq!(parser.parse("Kibit"), unit(Prefix::kibi(), "bit", "bit"));
}

#[test]
fn unit_without_family_takes_no_prefix() {
    let parser = seeded();
    assert_eq!(parser.parse("kme"), identifier("kme"));
    assert_eq!(parser.parse("Kime"), identifier("Kime"));
    assert_eq!(parser.parse("me"), unit(Prefix::none(), "me", "me"));
}

#[test]
fn micro_short_form_is_the_micro_sign() {
    let parser = seeded();
    assert_eq!(parser.parse("µm"), unit(Prefix::Metric(-6), "m", "meter"));
    assert_eq!(parser.parse("\u{b5}B"), unit(Prefix::Metric(-6), "B", "byte"));
    assert_eq!(parser.parse("um"), identifier("um"));
    assert_eq!(parser.parse("\u{3bc}m"), identifier("\u{3bc}m"));
    assert_eq!(parser.parse("micrometer"), unit(Prefix::Metric(-6), "meter", "meter"));
}

#[test]
fn deca_is_spelled_with_two_letters() {
    let parser = seeded();
    assert_eq!(parser.parse("dam"), unit(Prefix::Metric(1), "m", "meter"));
    assert_eq!(parser.parse("dm"), unit(Prefix::Metric(-1), "m", "meter"));
    assert_eq!(parser.parse("decameter"), unit(Prefix::Metric(1), "meter", "meter"));
    assert_eq!(parser.parse("decimeter"), unit(Prefix::Metric(-1), "meter", "meter"));
}

#[test]
fn tokens_beyond_ascii_are_split_by_characters() {
    let mut parser = PrefixParser::new();
    parser.add_unit("Ω", AcceptsPrefix::only_short(), true, false, "ohm", Span::dummy()).unwrap();
    parser.add_unit("°C", AcceptsPrefix::none(), false, false, "celsius", Span::dummy()).unwrap();
    assert_eq!(parser.parse("Ω"), unit(Prefix::none(), "Ω", "ohm"));
    assert_eq!(parser.parse("kΩ"), unit(Prefix::kilo(), "Ω", "ohm"));
    assert_eq!(parser.parse("µΩ"), unit(Prefix::Metric(-6), "Ω", "ohm"));
    assert_eq!(parser.parse("MΩ"), unit(Prefix::mega(), "Ω", "ohm"));
    assert_eq!(parser.parse("°C"), unit(Prefix::none(), "°C", "celsius"));
    assert_eq!(parser.parse("k°C"), identifier("k°C"));
    assert_eq!(parser.parse("kiloΩ"), identifier("kiloΩ"));
}

#[test]
fn split_is_decided_by_the_first_entry_that_matches() {
    let mut parser = PrefixParser::new();
    parser.add_unit("m", AcceptsPrefix::only_short(), true, false, "meter", Span::dummy()).unwrap();
    parser.add_unit("eter", AcceptsPrefix::only_short(), true, false, "eter", Span::dummy()).unwrap();
    assert_eq!(parser.parse("meter"), unit(Prefix::milli(), "eter", "eter"));
    assert_eq!(parser.parse("mm"), unit(Prefix::milli(), "m", "meter"));
}

#[test]
fn full_names_may_be_shared() {
    let parser = seeded();
    assert_eq!(parser.parse("kilometer"), unit(Prefix::kilo(), "meter", "meter"));
    assert_eq!(parser.parse("km"), unit(Prefix::kilo(), "m", "meter"));
}

#[test]
fn prefix_table_is_in_declaration_order() {
    let entries = PrefixParser::prefixes();
    assert_eq!(entries.len(), 32);
    assert_eq!(entries.len(), PREFIX_COUNT);
    let summary: Vec<(&str, &str, Prefix)> =
        entries.iter().map(|entry| (entry.long, entry.short, entry.prefix)).collect();
    let expected = vec![
        ("quecto", "q", Prefix::Metric(-30)),
        ("ronto", "r", Prefix::Metric(-27)),
        ("yocto", "y", Prefix::Metric(-24)),
        ("zepto", "z", Prefix::Metric(-21)),
        ("atto", "a", Prefix::Metric(-18)),
        ("femto", "f", Prefix::Metric(-15)),
        ("pico", "p", Prefix::Metric(-12)),
        ("nano", "n", Prefix::Metric(-9)),
        ("micro", "µ", Prefix::Metric(-6)),
        ("milli", "m", Prefix::Metric(-3)),
        ("centi", "c", Prefix::Metric(-2)),
        ("deci", "d", Prefix::Metric(-1)),
        ("deca", "da", Prefix::Metric(1)),
        ("hecto", "h", Prefix::Metric(2)),
        ("kilo", "k", Prefix::Metric(3)),
        ("mega", "M", Prefix::Metric(6)),
        ("giga", "G", Prefix::Metric(9)),
        ("tera", "T", Prefix::Metric(12)),
        ("peta", "P", Prefix::Metric(15)),
        ("exa", "E", Prefix::Metric(18)),
        ("zetta", "Z", Prefix::Metric(21)),
        ("yotta", "Y", Prefix::Metric(24)),
        ("ronna", "R", Prefix::Metric(27)),
        ("quetta", "Q", Prefix::Metric(30)),
        ("kibi", "Ki", Prefix::Binary(10)),
        ("mebi", "Mi", Prefix::Binary(20)),
        ("gibi", "Gi", Prefix::Binary(30)),
        ("tebi", "Ti", Prefix::Binary(40)),
        ("pebi", "Pi", Prefix::Binary(50)),
        ("exbi", "Ei", Prefix::Binary(60)),
        ("zebi", "Zi", Prefix::Binary(70)),
        ("yobi", "Yi", Prefix::Binary(80)),
    ];
    assert_eq!(summary, expected);
}

#[test]
fn entries_have_two_spellings_and_a_proper_prefix() {
    for entry in PrefixParser::prefixes() {
        assert_eq!(entry.spelling(PrefixForm::Long), entry.long);
        assert_eq!(entry.spelling(PrefixForm::Short), entry.short);
        assert!(!entry.prefix.is_none());
    }
}

#[test]
fn prefixed_resolution_is_a_split_of_the_token() {
    let parser = seeded();
    let tokens = [
        "kilometer", "km", "mm", "millimeter", "kB", "MB", "KiB", "MiB", "kibibyte", "mebibyte", "dam",
        "µm", "QB", "yobibyte", "quectometer", "meter", "me", "kme", "kilom", "foo",
    ];
    let mut prefixed = 0;
    for token in tokens {
        if let PrefixParserResult::UnitIdentifier(prefix, name, _) = parser.parse(token) {
            if prefix.is_none() {
                assert_eq!(name, token);
                continue;
            }
            prefixed += 1;
            let splits = PrefixParser::prefixes()
                .iter()
                .filter(|entry| {
                    entry.prefix == prefix
                        && (format!("{}{}", entry.long, name) == token
                            || format!("{}{}", entry.short, name) == token)
                })
                .count();
            assert_eq!(splits, 1);
        }
    }
    assert_eq!(prefixed, 15);
}

#[test]
fn spellings_are_pairwise_distinct() {
    let entries = PrefixParser::prefixes();
    let mut spellings: Vec<&str> = Vec::new();
    for entry in entries.iter() {
        spellings.push(entry.long);
        spellings.push(entry.short);
    }
    for (i, first) in spellings.iter().enumerate() {
        assert!(!first.is_empty());
        for second in spellings.iter().skip(i + 1) {
            assert_ne!(first, second);
        }
    }
}

#[test]
fn accepts_prefix_has_four_values() {
    assert_eq!(AcceptsPrefix::only_long(), AcceptsPrefix { long: true, short: false });
    assert_eq!(AcceptsPrefix::only_short(), AcceptsPrefix { long: false, short: true });
    assert_eq!(AcceptsPrefix::both(), AcceptsPrefix { long: true, short: true });
    assert_eq!(AcceptsPrefix::none(), AcceptsPrefix { long: false, short: false });
    assert!(AcceptsPrefix::only_long().accepts(PrefixForm::Long));
    assert!(!AcceptsPrefix::only_long().accepts(PrefixForm::Short));
    assert!(AcceptsPrefix::only_short().accepts(PrefixForm::Short));
    assert!(!AcceptsPrefix::only_short().accepts(PrefixForm::Long));
}

#[test]
fn prefix_values() {
    assert_eq!(Prefix::none(), Prefix::Metric(0));
    assert!(Prefix::none().is_none());
    assert!(!Prefix::kilo().is_none());
    assert!(!Prefix::Binary(0).is_none());
    assert_eq!(Prefix::milli(), Prefix::Metric(-3));
    assert_eq!(Prefix::kilo(), Prefix::Metric(3));
    assert_eq!(Prefix::mega(), Prefix::Metric(6));
    assert_eq!(Prefix::kibi(), Prefix::Binary(10));
    assert_eq!(Prefix::mebi(), Prefix::Binary(20));
    assert!(Prefix::kilo().is_metric() && !Prefix::kilo().is_binary());
    assert!(Prefix::kibi().is_binary() && !Prefix::kibi().is_metric());
}
