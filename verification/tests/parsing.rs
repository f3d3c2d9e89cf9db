use corpus::axioms::AxiomError;
use corpus::expression::LogicalExpression;
use corpus::operators::ClassicalOperator;
use corpus::peano::axioms::{
    peano_arithmetic_axioms, peano_arithmetic_axioms_with_goals, peano_arithmetic_rules,
};
use corpus::peano::display::{formula_to_string, term_to_string};
use corpus::peano::lexing::{is_whitespace, tokenize, tokenize_with_offsets, Lexer, Token};
use corpus::peano::parsing::{parse_axiom, parse_formula, AxiomStores, Parser};
use corpus::peano::PeanoStores;
use corpus::truth::BinaryTruth;

#[test]
fn test_axioms_creation() {
    let mut stores = PeanoStores::new();
    let axioms = peano_arithmetic_axioms(&mut stores);
    assert_eq!(axioms.len(), 3);

    // Verify the names
    let names: Vec<_> = axioms.iter().map(|a| a.name()).collect();
    assert!(names.contains(&"axiom2_successor_injectivity"));
    assert!(names.contains(&"axiom3_additive_identity"));
    assert!(names.contains(&"axiom4_additive_successor"));
}

#[test]
fn test_axioms_are_valid() {
    let mut stores = PeanoStores::new();
    let axioms = peano_arithmetic_axioms(&mut stores);

    for named in axioms {
        assert!(named.is_valid(), "Axiom {} should be valid", named.name());
        assert!(
            named.expression().value.is_compound(),
            "Axiom {} should have an operator",
            named.name()
        );
    }
}

#[test]
fn test_axioms_generate_rewrite_rules() {
    let rules = peano_arithmetic_rules();

    // Check that we have the expected rewrite rules
    assert_eq!(rules.len(), 3, "Should have 3 arithmetic rewrite rules");

    let rule_names: Vec<_> = rules.iter().map(|r| r.name.as_str()).collect();
    assert!(
        rule_names.contains(&"axiom2_successor_injectivity"),
        "Should have successor injectivity rule"
    );
    assert!(
        rule_names.contains(&"axiom3_additive_identity"),
        "Should have additive identity rule"
    );
    assert!(
        rule_names.contains(&"axiom4_additive_successor"),
        "Should have additive successor rule"
    );
}

#[test]
fn test_axiom2_successor_injectivity() {
    let mut stores = AxiomStores::new();
    let named = parse_axiom(
        "FORALL (FORALL (IMPLIES (EQ (S (/0)) (S (/1))) (EQ (/0) (/1))))",
        "test_axiom2",
        &mut stores,
    )
    .expect("Failed to parse axiom2");

    assert_eq!(named.name(), "test_axiom2");
    assert!(named.is_valid());
}

#[test]
fn test_axiom3_additive_identity() {
    let mut stores = AxiomStores::new();
    let named = parse_axiom("FORALL (EQ (PLUS (/0) (0)) (/0))", "test_axiom3", &mut stores)
        .expect("Failed to parse axiom3");

    assert_eq!(named.name(), "test_axiom3");
    assert!(named.is_valid());
}

#[test]
fn test_axiom4_additive_successor() {
    let mut stores = AxiomStores::new();
    let named = parse_axiom(
        "FORALL (FORALL (EQ (PLUS (/0) (S (/1))) (S (PLUS (/0) (/1)))))",
        "test_axiom4",
        &mut stores,
    )
    .expect("Failed to parse axiom4");

    assert_eq!(named.name(), "test_axiom4");
    assert!(named.is_valid());
}

#[test]
fn test_parse_error_invalid_syntax() {
    let mut stores = AxiomStores::new();
    let result = parse_axiom("invalid syntax", "test", &mut stores);
    assert!(result.is_err());
}

#[test]
fn test_basic_parsing() {
    // Test simple atomic proposition: equality - check grammar first
    let input = "EQ (0) (0)"; // Simplified form
    let mut parser = Parser::new(input);

    let result = parser.parse_proposition();
    if !result.is_ok() {
        println!("Parse error: {:?}", result.err());
        return;
    }

    let proposition = result.unwrap();
    println!("Parsed: {}", formula_to_string(&proposition));

    // Test evaluation of a simple true statement
    let true_expr: LogicalExpression<BinaryTruth, BinaryTruth, ClassicalOperator> =
        LogicalExpression::atomic(BinaryTruth::True.into());
    let evaluated = true_expr.evaluate();
    assert_eq!(evaluated, BinaryTruth::True);

    // Test logical operators
    let and_expr = LogicalExpression::compound(
        ClassicalOperator::And,
        vec![true_expr.clone().into(), true_expr.clone().into()],
    );
    let and_result = and_expr.evaluate();
    assert_eq!(and_result, BinaryTruth::True);

    println!("Basic parsing and evaluation test passed!");
}

#[test]
fn tokens_of_every_kind() {
    assert_eq!(
        tokenize("AND OR IMPLIES -> IFF <-> NOT FORALL EXISTS EQ PLUS S ( ) 42 /7"),
        vec![
            Token::And,
            Token::Or,
            Token::Implies,
            Token::Implies,
            Token::Iff,
            Token::Iff,
            Token::Not,
            Token::Forall,
            Token::Exists,
            Token::Eq,
            Token::Plus,
            Token::Successor,
            Token::LParen,
            Token::RParen,
            Token::Number(42),
            Token::DeBruijn(7),
        ]
    );
    assert_eq!(
        tokenize("∧∨→↔¬∀∃=+"),
        vec![
            Token::And,
            Token::Or,
            Token::Implies,
            Token::Iff,
            Token::Not,
            Token::Forall,
            Token::Exists,
            Token::Eq,
            Token::Plus,
        ]
    );
    assert_eq!(tokenize("S(0)"), vec![Token::Successor, Token::LParen, Token::Number(0), Token::RParen]);
    assert_eq!(tokenize(" \t\r\n"), vec![]);
    assert_eq!(tokenize(""), vec![]);
}

#[test]
fn every_white_space_is_skipped() {
    assert_eq!(
        tokenize("EQ\u{c}(0)\u{a0}(\u{3000}0\u{2028})\u{85}"),
        vec![
            Token::Eq,
            Token::LParen,
            Token::Number(0),
            Token::RParen,
            Token::LParen,
            Token::Number(0),
            Token::RParen,
        ]
    );
    let mut code = 0u32;
    while code <= 0x10ffff {
        if let Some(c) = char::from_u32(code) {
            assert_eq!(is_whitespace(c), c.is_whitespace(), "U+{:04X}", code);
        }
        code += 1;
    }
}

#[test]
fn words_take_letters_and_numerals_of_any_script() {
    assert_eq!(tokenize("S"), vec![Token::Successor]);
    // a letter or a numeral behind a keyword belongs to the word, which then spells nothing
    assert_eq!(tokenize("S\u{e9}"), Vec::<Token>::new());
    assert_eq!(tokenize("EQ\u{663} (0) (0)"), Vec::<Token>::new());
    assert_eq!(tokenize("S0"), Vec::<Token>::new());
    // any other character ends the word
    assert_eq!(
        tokenize("S(0)"),
        vec![Token::Successor, Token::LParen, Token::Number(0), Token::RParen]
    );
    assert_eq!(tokenize("S\u{2028}S"), vec![Token::Successor, Token::Successor]);
    assert_eq!(tokenize("S#S"), vec![Token::Successor]);
    assert_eq!(tokenize("S\u{2200}"), vec![Token::Successor, Token::Forall]);
}

#[test]
fn lexing_stops_where_nothing_is_spelled() {
    assert_eq!(tokenize("EQ nonsense (0)"), vec![Token::Eq]);
    assert_eq!(tokenize("EQ / (0)"), vec![Token::Eq]);
    assert_eq!(tokenize("18446744073709551615"), vec![Token::Number(u64::MAX)]);
    assert_eq!(tokenize("18446744073709551616 EQ"), vec![]);
    assert_eq!(tokenize("/4294967295"), vec![Token::DeBruijn(u32::MAX)]);
    assert_eq!(tokenize("/4294967296"), vec![]);
    assert_eq!(tokenize("007"), vec![Token::Number(7)]);
    let mut lexer = Lexer::new("PLUS x");
    assert_eq!(lexer.next_token(), Some(Token::Plus));
    assert_eq!(lexer.next_token(), None);
}

#[test]
fn parsed_formulas_read_back() {
    let mut parser = Parser::new("FORALL (IMPLIES (EQ (PLUS (/0) (S(0))) (/1)) (NOT (EQ (/1) (12))))");
    let formula = parser.parse_proposition().expect("a formula");
    assert_eq!(formula_to_string(&formula), "(∀ (/0 + S(0) = /1 -> (¬ /1 = 12)))");
    let mut parser = Parser::new("AND (OR (EQ (0) (0)) (EXISTS (EQ (/0) (0)))) (IFF (EQ (1) (1)) (EQ (2) (2)))");
    let formula = parser.parse_proposition().expect("a formula");
    assert_eq!(
        formula_to_string(&formula),
        "((0 = 0 ∨ (∃ /0 = 0)) ∧ (1 = 1 <-> 2 = 2))"
    );
    let mut parser = Parser::new("PLUS (S (S (10))) (/3)");
    let term = parser.parse_expression().expect("a term");
    assert_eq!(term_to_string(&term), "S(S(10)) + /3");
    assert_eq!(parser.store_stats(), (0, 5, 0));
    let mut parser = Parser::new("S (/2) 7");
    let term = parser.parse_term().expect("a term");
    assert_eq!(term_to_string(&term), "S(/2)");
    let term = parser.parse_term().expect("a term");
    assert_eq!(term_to_string(&term), "7");
    assert!(parser.parse_term().is_err());
}

#[test]
fn each_parse_failure_has_its_message() {
    assert_eq!(Parser::new("").parse_proposition().err().unwrap(), "Unexpected EOF expecting Proposition");
    assert_eq!(
        Parser::new("(").parse_proposition().err().unwrap(),
        "Unexpected token LParen for start of Proposition"
    );
    assert_eq!(
        Parser::new("12").parse_proposition().err().unwrap(),
        "Unexpected token Number(12) for start of Proposition"
    );
    assert_eq!(Parser::new("").parse_expression().err().unwrap(), "Unexpected EOF expecting Expression");
    assert_eq!(
        Parser::new("EQ").parse_expression().err().unwrap(),
        "Unexpected token Eq for start of Expression"
    );
    assert_eq!(
        Parser::new("EQ 0 0").parse_proposition().err().unwrap(),
        "Expected LParen, found Number(0)"
    );
    assert_eq!(
        Parser::new("EQ (0 (0)").parse_proposition().err().unwrap(),
        "Expected RParen, found LParen"
    );
    assert_eq!(Parser::new("EQ (0").parse_proposition().err().unwrap(), "Expected RParen, found EOF");
    assert_eq!(Parser::new("EQ").parse_proposition().err().unwrap(), "Expected LParen, found EOF");
    assert_eq!(
        Parser::new("EQ (/7) /3").parse_proposition().err().unwrap(),
        "Expected LParen, found DeBruijn(3)"
    );
    assert_eq!(
        Parser::new("AND (EQ (0) (0)) FORALL").parse_proposition().err().unwrap(),
        "Expected LParen, found Forall"
    );
    assert_eq!(Parser::new("EQ (0) (").parse_proposition().err().unwrap(), "Unexpected EOF expecting Expression");
    assert_eq!(Parser::new("NOT (").parse_proposition().err().unwrap(), "Unexpected EOF expecting Proposition");
    let mut stores = AxiomStores::new();
    let error = parse_axiom("FORALL (EQ (0) 0)", "broken", &mut stores).err().unwrap();
    assert_eq!(
        error,
        AxiomError::ParseError {
            message: "Expected LParen, found Number(0)".to_string(),
            position: Some(15)
        }
    );
    assert_eq!(
        error.to_string(),
        "Parse error at position 15: Expected LParen, found Number(0)"
    );
    let mut plain = PeanoStores::new();
    let at = |text: &str, stores: &mut PeanoStores| match parse_formula(text, stores) {
        Err(AxiomError::ParseError { position, .. }) => position,
        _ => panic!("a parse error"),
    };
    assert_eq!(at("EQ (0) (", &mut plain), Some(8));
    assert_eq!(at("", &mut plain), Some(0));
    assert_eq!(at("   ", &mut plain), Some(3));
    assert_eq!(at("  EQ (0) (nonsense)", &mut plain), Some(10));
    assert_eq!(at("AND (EQ (0) (0)) EQ (1) (1)", &mut plain), Some(17));
    assert_eq!(at("∀ (= (0) x)", &mut plain), Some(9));
    assert!(parse_formula("∀ (= (0) (0))", &mut plain).is_ok());
    assert_eq!(
        tokenize_with_offsets(" EQ  (12) /3"),
        (
            vec![Token::Eq, Token::LParen, Token::Number(12), Token::RParen, Token::DeBruijn(3)],
            vec![1, 5, 6, 8, 10, 12]
        )
    );
}

#[test]
fn all_axioms_come_in_order() {
    let mut stores = PeanoStores::new();
    let axioms = peano_arithmetic_axioms_with_goals(&mut stores);
    let names: Vec<_> = axioms.iter().map(|a| a.name()).collect();
    assert_eq!(
        names,
        vec![
            "axiom2_successor_injectivity",
            "axiom3_additive_identity",
            "axiom4_additive_successor",
            "axiom_reflexivity",
            "axiom_symmetry",
            "axiom_successor_injectivity",
        ]
    );
    let texts: Vec<_> = axioms.iter().map(|a| formula_to_string(a.expression())).collect();
    assert_eq!(
        texts,
        vec![
            "(∀ (∀ (S(/0) = S(/1) -> /0 = /1)))",
            "(∀ (∀ (/0 + 0 = /1 -> /0 = /1)))",
            "(∀ (∀ (∀ (/0 + S(/1) = /2 -> S(/0 + /1) = /2))))",
            "(∀ /0 = /0)",
            "(∀ (∀ (/0 = /1 -> /1 = /0)))",
            "(∀ (¬ /0 = S(/0)))",
        ]
    );
}
