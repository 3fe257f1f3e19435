use css_supports::condition::{PropertyId, SupportsCondition};
use css_supports::parser::ParseError;
use css_supports::rule::{Location, SupportsRule};
use css_supports::targets::{PrefixEntry, PrefixTable};
use css_supports::vendor_prefix::VendorPrefixSet;

fn chars(s: &str) -> Vec<char> {
    s.chars().collect()
}

fn text(v: &Vec<char>) -> String {
    v.iter().collect()
}

fn parse_all(s: &str) -> Result<(SupportsCondition, usize), ParseError> {
    let v = chars(s);
    let n = v.len();
    SupportsCondition::parse(&v, 0, n)
}

fn print(c: &SupportsCondition) -> String {
    text(&c.to_css())
}

fn decl(name: &str, value: &str) -> SupportsCondition {
    SupportsCondition::Declaration {
        property_id: PropertyId { name: chars(name), prefix: VendorPrefixSet::empty() },
        value: chars(value),
    }
}

fn table(rows: Vec<(&str, VendorPrefixSet)>) -> PrefixTable {
    PrefixTable {
        entries: rows
            .into_iter()
            .map(|(n, p)| PrefixEntry { name: chars(n), prefixes: p })
            .collect(),
    }
}

fn webkit_moz() -> VendorPrefixSet {
    VendorPrefixSet { none: false, webkit: true, moz: true, ms: false, o: false }
}

#[test]
fn verbatim_fallback() {
    let (c, q) = parse_all("(100px: 100px)").unwrap();
    assert_eq!(q, 14);
    match &c {
        SupportsCondition::Unknown(t) => assert_eq!(text(t), "(100px: 100px)"),
        other => panic!("expected an unknown condition, got {:?}", print(other)),
    }
    assert_eq!(print(&c), "(100px: 100px)");
}

#[test]
fn operator_mixing_terminates_list() {
    let input = "(a: 1) and (b: 2) or (c: 3)";
    let (c, q) = parse_all(input).unwrap();
    match &c {
        SupportsCondition::And(items) => {
            assert_eq!(items.len(), 2);
            assert!(items[0].structural_eq(&decl("a", "1")));
            assert!(items[1].structural_eq(&decl("b", "2")));
        }
        _ => panic!("expected a conjunction"),
    }
    assert_eq!(&input[q..], " or (c: 3)");
}

#[test]
fn negation_example() {
    let (c, q) = parse_all("not (display: flex)").unwrap();
    assert_eq!(q, 19);
    match &c {
        SupportsCondition::Not(inner) => {
            assert!(inner.structural_eq(&decl("display", "flex")));
        }
        _ => panic!("expected a negation"),
    }
    assert_eq!(print(&c), "not (display: flex)");
}

#[test]
fn selector_example() {
    let (c, q) = parse_all("selector(:has(a))").unwrap();
    assert_eq!(q, 17);
    match &c {
        SupportsCondition::Selector(t) => assert_eq!(text(t), ":has(a)"),
        _ => panic!("expected a selector check"),
    }
    assert_eq!(print(&c), "selector(:has(a))");
}

#[test]
fn prefix_expansion_example() {
    let (mut c, _) = parse_all("(display: flex)").unwrap();
    let t = table(vec![("display", webkit_moz())]);
    c.set_prefixes_for_targets(&t);
    assert_eq!(print(&c), "((-webkit-display: flex) or (-moz-display: flex))");
}

#[test]
fn prefix_expansion_recurses() {
    let (mut c, _) = parse_all("not (display: flex)").unwrap();
    let t = table(vec![("display", webkit_moz())]);
    c.set_prefixes_for_targets(&t);
    assert_eq!(print(&c), "not ((-webkit-display: flex) or (-moz-display: flex))");

    let (mut c2, _) = parse_all("(display: flex) and (color: red)").unwrap();
    c2.set_prefixes_for_targets(&t);
    assert_eq!(print(&c2), "((-webkit-display: flex) or (-moz-display: flex)) and (color: red)");
}

#[test]
fn prefix_expansion_leaves_unknown_properties() {
    let (mut c, _) = parse_all("(display: flex)").unwrap();
    let t = table(vec![("transform", webkit_moz())]);
    c.set_prefixes_for_targets(&t);
    assert_eq!(print(&c), "(display: flex)");
}

#[test]
fn prefix_expansion_skips_explicitly_prefixed() {
    let (mut c, _) = parse_all("(-webkit-transform: none)").unwrap();
    match &c {
        SupportsCondition::Declaration { property_id, .. } => {
            assert_eq!(text(&property_id.name), "transform");
            assert!(property_id.prefix.webkit);
            assert!(!property_id.prefix.none);
        }
        _ => panic!("expected a declaration"),
    }
    let t = table(vec![("transform", webkit_moz())]);
    c.set_prefixes_for_targets(&t);
    // The property already carries an explicit prefix: the pass leaves it.
    assert_eq!(print(&c), "((-webkit-transform: none))");
}

#[test]
fn prefixed_declaration_round_trips() {
    let (c, _) = parse_all("((-webkit-transform: none))").unwrap();
    let printed = print(&c);
    assert_eq!(printed, "((-webkit-transform: none))");
    let (c2, _) = parse_all(&printed).unwrap();
    assert!(c.structural_eq(&c2));
}

#[test]
fn and_is_idempotent() {
    let mut x = decl("display", "flex");
    let y = decl("display", "flex");
    x.and(&y);
    assert!(x.structural_eq(&decl("display", "flex")));

    let mut a = decl("a", "1");
    a.and(&decl("b", "2"));
    let snapshot = a.deep_clone();
    a.and(&snapshot);
    assert!(a.structural_eq(&snapshot));
}

#[test]
fn or_is_idempotent() {
    let mut x = decl("display", "flex");
    let y = decl("display", "flex");
    x.or(&y);
    assert!(x.structural_eq(&decl("display", "flex")));

    let mut a = decl("a", "1");
    a.or(&decl("b", "2"));
    let snapshot = a.deep_clone();
    a.or(&snapshot);
    assert!(a.structural_eq(&snapshot));
}

#[test]
fn and_deduplicates_members() {
    let mut x = decl("a", "1");
    x.and(&decl("b", "2"));
    x.and(&decl("b", "2"));
    match &x {
        SupportsCondition::And(items) => assert_eq!(items.len(), 2),
        _ => panic!("expected a conjunction"),
    }
    assert_eq!(print(&x), "(a: 1) and (b: 2)");
}

#[test]
fn or_deduplicates_members() {
    let mut x = decl("a", "1");
    x.or(&decl("b", "2"));
    x.or(&decl("b", "2"));
    x.or(&decl("c", "3"));
    match &x {
        SupportsCondition::Or(items) => assert_eq!(items.len(), 3),
        _ => panic!("expected a disjunction"),
    }
    assert_eq!(print(&x), "(a: 1) or (b: 2) or (c: 3)");
}

#[test]
fn or_wraps_a_conjunction() {
    let mut x = decl("a", "1");
    x.and(&decl("b", "2"));
    x.or(&decl("c", "3"));
    assert_eq!(print(&x), "((a: 1) and (b: 2)) or (c: 3)");
}

#[test]
fn mixed_nesting_round_trips() {
    let input = "((a: 1) and (b: 2)) or (c: 3)";
    let (c, q) = parse_all(input).unwrap();
    assert_eq!(q, input.len());
    let printed = print(&c);
    assert_eq!(printed, input);
    let (c2, _) = parse_all(&printed).unwrap();
    assert!(c.structural_eq(&c2));
}

#[test]
fn negation_of_list_round_trips() {
    let input = "not ((a: 1) and (b: 2))";
    let (c, q) = parse_all(input).unwrap();
    assert_eq!(q, input.len());
    assert_eq!(print(&c), input);
}

#[test]
fn three_member_conjunction() {
    let input = "(a: 1) and (b: 2) and (c: 3)";
    let (c, q) = parse_all(input).unwrap();
    assert_eq!(q, input.len());
    match &c {
        SupportsCondition::And(items) => assert_eq!(items.len(), 3),
        _ => panic!("expected a conjunction"),
    }
    assert_eq!(print(&c), input);
}

#[test]
fn keywords_are_case_insensitive() {
    let (c, _) = parse_all("NOT (a: 1)").unwrap();
    assert!(matches!(c, SupportsCondition::Not(_)));
    let (c2, _) = parse_all("(a: 1) AND (b: 2)").unwrap();
    assert!(matches!(c2, SupportsCondition::And(_)));
    let (c3, _) = parse_all("(a: 1) Or (b: 2)").unwrap();
    assert!(matches!(c3, SupportsCondition::Or(_)));
}

#[test]
fn whitespace_is_tolerated() {
    let (c, _) = parse_all("  ( a :  1 )   and   ( b : 2 )").unwrap();
    match &c {
        SupportsCondition::And(items) => {
            assert_eq!(items.len(), 2);
            match &items[0] {
                SupportsCondition::Declaration { property_id, value } => {
                    assert_eq!(text(&property_id.name), "a");
                    assert_eq!(text(value), "1 ");
                }
                _ => panic!("expected a declaration"),
            }
        }
        _ => panic!("expected a conjunction"),
    }
}

#[test]
fn bare_identifier_is_an_error() {
    assert!(parse_all("foo").is_err());
    assert!(parse_all("").is_err());
    assert!(parse_all("not").is_err());
}

#[test]
fn bracket_block_is_an_error() {
    assert!(parse_all("[a]").is_err());
    assert!(parse_all("{a: 1}").is_err());
}

#[test]
fn unterminated_block_is_an_error() {
    assert!(parse_all("(a: 1").is_err());
    assert!(parse_all("selector(:has(a)").is_err());
    assert!(parse_all("(a: (b)").is_err());
}

#[test]
fn mismatched_closer_is_an_error() {
    assert!(parse_all("(a: 1])").is_err());
}

#[test]
fn broken_string_is_an_error() {
    assert!(parse_all("(a: 'x\ny')").is_err());
    assert!(parse_all("(a: 'x)").is_err());
}

#[test]
fn string_values_are_kept_verbatim() {
    let (c, _) = parse_all("(a: 'x)y')").unwrap();
    match &c {
        SupportsCondition::Declaration { value, .. } => assert_eq!(text(value), "'x)y'"),
        _ => panic!("expected a declaration"),
    }
}

#[test]
fn unknown_function_falls_back_verbatim() {
    let (c, _) = parse_all("not(a: 1)").unwrap();
    match &c {
        SupportsCondition::Unknown(t) => assert_eq!(text(t), "not(a: 1)"),
        _ => panic!("expected an unknown condition"),
    }
}

#[test]
fn redundant_parentheses_collapse() {
    let (c, _) = parse_all("((display: flex))").unwrap();
    assert!(c.structural_eq(&decl("display", "flex")));
    assert_eq!(print(&c), "(display: flex)");
}

#[test]
fn trailing_operator_is_not_consumed() {
    // An operator keyword whose operand fails does not fix a list type: the
    // first operand comes back alone and the keyword stays unconsumed.
    let input = "(a: 1) and";
    let (c, q) = parse_all(input).unwrap();
    assert!(c.structural_eq(&decl("a", "1")));
    assert_eq!(&input[q..], " and");

    let input2 = "(a: 1) and (b: 2) or";
    let (c2, q2) = parse_all(input2).unwrap();
    match &c2 {
        SupportsCondition::And(items) => assert_eq!(items.len(), 2),
        _ => panic!("expected a conjunction"),
    }
    assert_eq!(&input2[q2..], " or");
}

#[test]
fn needs_parens_follows_precedence() {
    let a = {
        let mut x = decl("a", "1");
        x.and(&decl("b", "2"));
        x
    };
    let o = {
        let mut x = decl("a", "1");
        x.or(&decl("b", "2"));
        x
    };
    let d = decl("c", "3");
    assert!(!a.needs_parens(&a));
    assert!(!o.needs_parens(&o));
    assert!(a.needs_parens(&o));
    assert!(o.needs_parens(&a));
    assert!(!d.needs_parens(&a));
    let n = SupportsCondition::Not(Box::new(decl("a", "1")));
    assert!(n.needs_parens(&a));
    assert!(n.needs_parens(&o));
}

#[test]
fn structural_equality_is_by_shape() {
    let (c1, _) = parse_all("(a: 1) and (b: 2)").unwrap();
    let (c2, _) = parse_all("(a: 1)  and  (b: 2)").unwrap();
    assert!(c1.structural_eq(&c2));
    let (c3, _) = parse_all("(a: 1) or (b: 2)").unwrap();
    assert!(!c1.structural_eq(&c3));
    let (c4, _) = parse_all("(a: 2) and (b: 2)").unwrap();
    assert!(!c1.structural_eq(&c4));
}

#[test]
fn rule_minify_and_prelude() {
    let (c, _) = parse_all("(display: flex)").unwrap();
    let mut rule = SupportsRule {
        condition: c,
        loc: Location { source_index: 0, line: 3, column: 1 },
    };
    rule.minify(None);
    assert_eq!(text(&rule.to_css_prelude()), "@supports (display: flex)");

    let t = table(vec![("display", webkit_moz())]);
    rule.minify(Some(&t));
    assert_eq!(
        text(&rule.to_css_prelude()),
        "@supports ((-webkit-display: flex) or (-moz-display: flex))"
    );
    assert_eq!(rule.loc.line, 3);
}

#[test]
fn selector_with_error_token_is_an_error() {
    assert!(parse_all("selector(:has('a)").is_err());
}

#[test]
fn deep_clone_copies_the_tree() {
    let (c, _) = parse_all("not ((a: 1) and selector(b))").unwrap();
    let d = c.deep_clone();
    assert!(c.structural_eq(&d));
    assert_eq!(print(&c), print(&d));
}
