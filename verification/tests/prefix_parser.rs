use numbat::prefix::Prefix;
use numbat::prefix_parser::{AcceptsPrefix, PrefixParser, PrefixParserResult};
use numbat::span::Span;
use numbat::NameResolutionError;

fn span(start: u32) -> Span {
    Span { start, end: start + 1, code_source_id: 0 }
}

fn unit(r: PrefixParserResult) -> (Prefix, String, String) {
    match r {
        PrefixParserResult::UnitIdentifier(prefix, base, full) => (prefix, base, full),
        PrefixParserResult::Identifier(name) => panic!("{} is no unit", name),
    }
}

fn plain(r: PrefixParserResult) -> String {
    match r {
        PrefixParserResult::Identifier(name) => name,
        PrefixParserResult::UnitIdentifier(_, base, _) => panic!("{} is a unit", base),
    }
}

fn with_meter() -> PrefixParser {
    let mut p = PrefixParser::new();
    assert!(p.add_unit("meter", AcceptsPrefix::only_long(), true, false, "meter", span(0)).is_ok());
    assert!(p.add_unit("m", AcceptsPrefix::only_short(), true, false, "meter", span(0)).is_ok());
    p
}

#[test]
fn kilometer_is_meter_with_kilo() {
    let p = with_meter();
    assert_eq!(
        unit(p.parse("kilometer")),
        (Prefix::Metric(3), "meter".to_string(), "meter".to_string())
    );
}

#[test]
fn meter_is_the_unit_without_prefix() {
    let p = with_meter();
    assert_eq!(unit(p.parse("meter")), (Prefix::Metric(0), "meter".to_string(), "meter".to_string()));
    assert_eq!(Prefix::none(), Prefix::Metric(0));
}

#[test]
fn meterxyz_is_a_plain_identifier() {
    let p = with_meter();
    assert_eq!(plain(p.parse("meterxyz")), "meterxyz");
    assert_eq!(plain(p.parse("kilo")), "kilo");
    assert_eq!(plain(p.parse("xkilometer")), "xkilometer");
    assert_eq!(plain(p.parse("")), "");
}

#[test]
fn short_alias_takes_short_prefixes_only() {
    let p = with_meter();
    assert_eq!(unit(p.parse("km")), (Prefix::Metric(3), "m".to_string(), "meter".to_string()));
    assert_eq!(unit(p.parse("mm")), (Prefix::Metric(-3), "m".to_string(), "meter".to_string()));
    assert_eq!(unit(p.parse("µm")), (Prefix::Metric(-6), "m".to_string(), "meter".to_string()));
    assert_eq!(unit(p.parse("μm")), (Prefix::Metric(-6), "m".to_string(), "meter".to_string()));
    assert_eq!(plain(p.parse("kilom")), "kilom");
    assert_eq!(plain(p.parse("kmeter")), "kmeter");
}

#[test]
fn millimeter_is_not_misread() {
    let p = with_meter();
    assert_eq!(
        unit(p.parse("millimeter")),
        (Prefix::Metric(-3), "meter".to_string(), "meter".to_string())
    );
}

#[test]
fn binary_prefixes_need_their_flag() {
    let mut p = PrefixParser::new();
    assert!(p.add_unit("byte", AcceptsPrefix::only_long(), false, true, "byte", span(0)).is_ok());
    assert_eq!(unit(p.parse("kibibyte")), (Prefix::Binary(10), "byte".to_string(), "byte".to_string()));
    assert_eq!(unit(p.parse("yobibyte")), (Prefix::Binary(80), "byte".to_string(), "byte".to_string()));
    assert_eq!(plain(p.parse("kilobyte")), "kilobyte");
    assert!(Prefix::Binary(10).is_binary());
    assert!(!Prefix::Binary(10).is_metric());
    assert!(Prefix::Metric(3).is_metric());
}

#[test]
fn unit_without_prefix_flags_takes_none() {
    let mut p = PrefixParser::new();
    assert!(p.add_unit("inch", AcceptsPrefix::only_long(), false, false, "inch", span(0)).is_ok());
    assert_eq!(plain(p.parse("kiloinch")), "kiloinch");
    let mut q = PrefixParser::new();
    assert!(q.add_unit("inch", AcceptsPrefix::none(), true, true, "inch", span(0)).is_ok());
    assert_eq!(plain(q.parse("kiloinch")), "kiloinch");
    assert_eq!(unit(q.parse("inch")).0, Prefix::Metric(0));
}

#[test]
fn the_longest_prefix_wins() {
    let mut p = PrefixParser::new();
    assert!(p.add_unit("am", AcceptsPrefix::only_short(), true, false, "attomile", span(0)).is_ok());
    assert!(p.add_unit("m", AcceptsPrefix::only_short(), true, false, "meter", span(1)).is_ok());
    assert_eq!(unit(p.parse("dam")), (Prefix::Metric(1), "m".to_string(), "meter".to_string()));
    assert_eq!(unit(p.parse("am")), (Prefix::Metric(0), "am".to_string(), "attomile".to_string()));
}

#[test]
fn an_alias_of_another_unit_is_refused() {
    let mut p = with_meter();
    let r = p.add_unit("m", AcceptsPrefix::only_short(), false, false, "mile", span(7));
    match r {
        Err(NameResolutionError::IdentifierClash {
            conflicting_identifier,
            conflict_span,
            original_span,
        }) => {
            assert_eq!(conflicting_identifier, "m");
            assert_eq!(conflict_span, span(7));
            assert_eq!(original_span, span(0));
        }
        Ok(()) => panic!("accepted"),
    }
    assert_eq!(unit(p.parse("m")).2, "meter");
}

#[test]
fn the_same_alias_for_the_same_unit_changes_nothing() {
    let mut p = with_meter();
    assert!(p.add_unit("m", AcceptsPrefix::none(), false, false, "meter", span(9)).is_ok());
    assert_eq!(unit(p.parse("km")), (Prefix::Metric(3), "m".to_string(), "meter".to_string()));
}

#[test]
fn a_prefixed_spelling_is_taken() {
    let mut p = with_meter();
    assert!(p.add_unit("kilometer", AcceptsPrefix::none(), false, false, "kilometer", span(3)).is_err());
    assert!(p.add_other_identifier("km", span(3)).is_err());
    assert!(p.add_other_identifier("meter", span(3)).is_err());
}

#[test]
fn a_plain_identifier_blocks_a_unit_of_its_name() {
    let mut p = PrefixParser::new();
    assert!(p.add_other_identifier("x", span(1)).is_ok());
    assert!(p.add_other_identifier("x", span(2)).is_ok());
    match p.add_unit("x", AcceptsPrefix::only_long(), false, false, "x", span(5)) {
        Err(NameResolutionError::IdentifierClash { original_span, conflict_span, .. }) => {
            assert_eq!(original_span, span(1));
            assert_eq!(conflict_span, span(5));
        }
        Ok(()) => panic!("accepted"),
    }
    assert_eq!(plain(p.parse("x")), "x");
}

#[test]
fn a_plain_identifier_goes_before_a_split() {
    let mut p = PrefixParser::new();
    assert!(p.add_other_identifier("kilometer", span(1)).is_ok());
    assert!(p.add_unit("meter", AcceptsPrefix::only_long(), true, false, "meter", span(2)).is_ok());
    assert_eq!(plain(p.parse("kilometer")), "kilometer");
    assert_eq!(unit(p.parse("megameter")).0, Prefix::Metric(6));
}

#[test]
fn a_copy_of_the_table_resolves_alike() {
    let p = with_meter();
    let q = p.duplicate();
    assert_eq!(unit(q.parse("km")), unit(p.parse("km")));
    assert_eq!(plain(q.parse("foo")), "foo");
}
