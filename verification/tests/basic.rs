use numbat::prefix::Prefix;
use numbat::prefix_parser::AcceptsPrefix;
use numbat::prefix_parser::PrefixParser;
use numbat::prefix_parser::PrefixParserResult;
use numbat::span::Span;

#[test]
fn basic() {
    let mut prefix_parser = PrefixParser::new();
    prefix_parser
        .add_unit(
            "meter",
            AcceptsPrefix::only_long(),
            true,
            false,
            "meter",
            Span::dummy(),
        )
        .unwrap();
    prefix_parser
        .add_unit(
            "m",
            AcceptsPrefix::only_short(),
            true,
            false,
            "meter",
            Span::dummy(),
        )
        .unwrap();

    prefix_parser
        .add_unit(
            "byte",
            AcceptsPrefix::only_long(),
            true,
            true,
            "byte",
            Span::dummy(),
        )
        .unwrap();
    prefix_parser
        .add_unit(
            "B",
            AcceptsPrefix::only_short(),
            true,
            true,
            "byte",
            Span::dummy(),
        )
        .unwrap();

    prefix_parser
        .add_unit(
            "me",
            AcceptsPrefix::only_short(),
            false,
            false,
            "me",
            Span::dummy(),
        )
        .unwrap();

    assert_eq!(
        prefix_parser.parse("meter"),
        PrefixParserResult::UnitIdentifier(Prefix::none(), "meter".into(), "meter".into())
    );
    assert_eq!(
        prefix_parser.parse("m"),
        PrefixParserResult::UnitIdentifier(Prefix::none(), "m".into(), "meter".into())
    );
    assert_eq!(
        prefix_parser.parse("byte"),
        PrefixParserResult::UnitIdentifier(Prefix::none(), "byte".into(), "byte".into())
    );
    assert_eq!(
        prefix_parser.parse("B"),
        PrefixParserResult::UnitIdentifier(Prefix::none(), "B".into(), "byte".into())
    );
    assert_eq!(
        prefix_parser.parse("me"),
        PrefixParserResult::UnitIdentifier(Prefix::none(), "me".into(), "me".into())
    );

    assert_eq!(
        prefix_parser.parse("kilometer"),
        PrefixParserResult::UnitIdentifier(Prefix::kilo(), "meter".into(), "meter".into())
    );
    assert_eq!(
        prefix_parser.parse("millimeter"),
        PrefixParserResult::UnitIdentifier(Prefix::milli(), "meter".into(), "meter".into())
    );
    assert_eq!(
        prefix_parser.parse("kilobyte"),
        PrefixParserResult::UnitIdentifier(Prefix::kilo(), "byte".into(), "byte".into())
    );
    assert_eq!(
        prefix_parser.parse("kibibyte"),
        PrefixParserResult::UnitIdentifier(Prefix::kibi(), "byte".into(), "byte".into())
    );
    assert_eq!(
        prefix_parser.parse("mebibyte"),
        PrefixParserResult::UnitIdentifier(Prefix::mebi(), "byte".into(), "byte".into())
    );

    assert_eq!(
        prefix_parser.parse("km"),
        PrefixParserResult::UnitIdentifier(Prefix::kilo(), "m".into(), "meter".into())
    );
    assert_eq!(
        prefix_parser.parse("mm"),
        PrefixParserResult::UnitIdentifier(Prefix::milli(), "m".into(), "meter".into())
    );
    assert_eq!(
        prefix_parser.parse("kB"),
        PrefixParserResult::UnitIdentifier(Prefix::kilo(), "B".into(), "byte".into())
    );
    assert_eq!(
        prefix_parser.parse("MB"),
        PrefixParserResult::UnitIdentifier(Prefix::mega(), "B".into(), "byte".into())
    );
    assert_eq!(
        prefix_parser.parse("KiB"),
        PrefixParserResult::UnitIdentifier(Prefix::kibi(), "B".into(), "byte".into())
    );
    assert_eq!(
        prefix_parser.parse("MiB"),
        PrefixParserResult::UnitIdentifier(Prefix::mebi(), "B".into(), "byte".into())
    );

    assert_eq!(
        prefix_parser.parse("kilom"),
        PrefixParserResult::Identifier("kilom".into())
    );
    assert_eq!(
        prefix_parser.parse("kilome"),
        PrefixParserResult::Identifier("kilome".into())
    );
    assert_eq!(
        prefix_parser.parse("kme"),
        PrefixParserResult::Identifier("kme".into())
    );

    assert_eq!(
        prefix_parser.parse("kilomete"),
        PrefixParserResult::Identifier("kilomete".into())
    );
    assert_eq!(
        prefix_parser.parse("kilometerr"),
        PrefixParserResult::Identifier("kilometerr".into())
    );

    assert_eq!(
        prefix_parser.parse("foometer"),
        PrefixParserResult::Identifier("foometer".into())
    );

    assert_eq!(
        prefix_parser.parse("kibimeter"),
        PrefixParserResult::Identifier("kibimeter".into())
    );
    assert_eq!(
        prefix_parser.parse("Kim"),
        PrefixParserResult::Identifier("Kim".into())
    );
}
