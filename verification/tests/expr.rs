use appgen::expr::{econstruct, elist, epair, top_level_def, Expr};

#[test]
fn test_simple() {
    println!("{:?}", econstruct("x = type (foo)"));
    println!("{:?}", econstruct("x = type (foo, bar = y, junk = (baz = a))"));
    println!("{:?}", top_level_def("x = type (foo, bar = y, junk = (baz = a))"));
    println!("{:?}", top_level_def("x = type (blah = foo, bar = y, junk = (baz = a))"));

    println!("{:?}", top_level_def("transaction = table ( txntimestamp = field ( type = timestamp without time zone), id = field ( type = big serial ), merchant = field (type = varchar(256)))"));

    assert_eq!(
        epair("x = y").unwrap().1,
        Expr::EPair("x".into(), Box::new(Expr::EPrim("y".into())))
    );

    assert_eq!(
        elist("x = y, a = b, c = d").unwrap().1,
        Expr::EList(vec![
            Box::new(Expr::pair("x", "y")),
            Box::new(Expr::pair("a", "b")),
            Box::new(Expr::pair("c", "d")),
        ])
    );
}

use appgen::expr::{
    basic_word, elist_flat, eprim, expr, non_terminal, paren_list, some_words, top_level_expr,
    Scanner,
};

fn expr_prim(word: &str) -> Box<Expr> {
    Box::new(Expr::EPrim(String::from(word)))
}

#[test]
fn construction() {
    assert_eq!(
        econstruct("x = type (foo)"),
        Some(("", Expr::EConstruct(String::from("x"), String::from("type"), vec![expr_prim("foo")])))
    );
    assert_eq!(
        econstruct("x = type (foo, bar = y, junk = (baz = a))").unwrap().1,
        Expr::EConstruct(
            String::from("x"),
            String::from("type"),
            vec![
                expr_prim("foo"),
                Box::new(Expr::pair("bar", "y")),
                Box::new(Expr::EPair(
                    String::from("junk"),
                    Box::new(Expr::EList(vec![Box::new(Expr::pair("baz", "a"))]))
                )),
            ]
        )
    );
    assert_eq!(
        econstruct("  key=kind(a)  tail").unwrap(),
        ("tail", Expr::EConstruct(String::from("key"), String::from("kind"), vec![expr_prim("a")]))
    );
    assert_eq!(econstruct("x = type"), None);
    assert_eq!(econstruct("x = type ("), None);
    assert_eq!(econstruct("x = type ()"), None);
    assert_eq!(econstruct("x = type (a"), None);
    assert_eq!(econstruct(""), None);
}

#[test]
fn nested_construction() {
    assert_eq!(
        econstruct("t = table ( id = field ( type = big serial ), n = field (type = varchar(256)))")
            .unwrap(),
        (
            "",
            Expr::EConstruct(
                String::from("t"),
                String::from("table"),
                vec![
                    Box::new(Expr::EConstruct(
                        String::from("id"),
                        String::from("field"),
                        vec![Box::new(Expr::pair("type", "big serial"))]
                    )),
                    Box::new(Expr::EConstruct(
                        String::from("n"),
                        String::from("field"),
                        vec![Box::new(Expr::EConstruct(
                            String::from("type"),
                            String::from("varchar"),
                            vec![expr_prim("256")]
                        ))]
                    )),
                ]
            )
        )
    );
}

#[test]
fn words() {
    assert_eq!(some_words("big serial"), Some(("", String::from("big serial"))));
    assert_eq!(some_words("without   time \t zone"), Some(("", String::from("without time zone"))));
    assert_eq!(some_words("one  = two"), Some(("  = two", String::from("one"))));
    assert_eq!(some_words("a\nb"), Some(("\nb", String::from("a"))));
    assert_eq!(some_words("abc123 "), Some((" ", String::from("abc123"))));
    assert_eq!(some_words(" lead"), None);
    assert_eq!(some_words("=x"), None);
    assert_eq!(some_words(""), None);
    assert_eq!(some_words("\u{e9}t\u{e9} \u{4eac}"), Some(("", String::from("\u{e9}t\u{e9} \u{4eac}"))));
    assert_eq!(some_words("a_b"), Some(("_b", String::from("a"))));
    assert_eq!(eprim("two words, more"), Some((", more", Expr::EPrim(String::from("two words")))));
}

#[test]
fn pairs() {
    assert_eq!(epair("x=y"), Some(("", Expr::pair("x", "y"))));
    assert_eq!(epair("x \n=\n y z"), Some(("", Expr::pair("x", "y z"))));
    assert_eq!(
        epair("a = b = c"),
        Some(("", Expr::EPair(String::from("a"), Box::new(Expr::pair("b", "c")))))
    );
    assert_eq!(epair("x y"), None);
    assert_eq!(epair("x ="), None);
    assert_eq!(epair(" x = y"), None);
}

#[test]
fn lists() {
    assert_eq!(elist("a").unwrap(), ("", Expr::EList(vec![expr_prim("a")])));
    assert_eq!(elist("a, b ,c").unwrap(), ("", Expr::EList(vec![expr_prim("a"), expr_prim("b"), expr_prim("c")])));
    assert_eq!(elist("a, ").unwrap(), (", ", Expr::EList(vec![expr_prim("a")])));
    assert_eq!(elist("a,,b").unwrap(), (",,b", Expr::EList(vec![expr_prim("a")])));
    assert_eq!(elist(", a"), None);
    assert_eq!(elist_flat("a,b").unwrap(), ("", vec![expr_prim("a"), expr_prim("b")]));
    assert_eq!(paren_list("(a, b)c").unwrap(), ("c", Expr::EList(vec![expr_prim("a"), expr_prim("b")])));
    assert_eq!(paren_list("(a, b"), None);
    assert_eq!(paren_list("( a)"), None);
    assert_eq!(paren_list("a"), None);
    assert_eq!(paren_list("()"), None);
}

#[test]
fn expression_takes_the_first_that_parses() {
    assert!(matches!(expr("k = t (a)").unwrap().1, Expr::EConstruct(..)));
    assert!(matches!(expr("(a)").unwrap().1, Expr::EList(..)));
    assert!(matches!(expr("k = v").unwrap().1, Expr::EPair(..)));
    assert!(matches!(expr("k v").unwrap().1, Expr::EPrim(..)));
    assert_eq!(expr("k = t (a").unwrap(), (" (a", Expr::pair("k", "t")));
    assert_eq!(expr(")"), None);
}

#[test]
fn top_level() {
    assert_eq!(top_level_expr("  a , b  ").unwrap(), ("", Expr::EList(vec![expr_prim("a"), expr_prim("b")])));
    assert_eq!(top_level_expr(" k = v ").unwrap(), ("", Expr::EList(vec![Box::new(Expr::pair("k", "v"))])));
    assert_eq!(
        top_level_def("x = type (foo) y = z"),
        Some((
            "",
            vec![
                Expr::EConstruct(String::from("x"), String::from("type"), vec![expr_prim("foo")]),
                Expr::EList(vec![Box::new(Expr::pair("y", "z"))]),
            ]
        ))
    );
    assert_eq!(top_level_def("a ) b").unwrap(), (") b", vec![Expr::EList(vec![expr_prim("a")])]));
    assert_eq!(top_level_def("   "), None);
    assert_eq!(top_level_def(")"), None);
}

#[test]
fn basic_words() {
    assert_eq!(basic_word("=(x),"), ("x),", "=("));
    assert_eq!(basic_word("word"), ("word", ""));
    assert_eq!(basic_word(",=\\"), ("", ",=\\"));
    assert_eq!(basic_word(""), ("", ""));
    assert!(non_terminal('a'));
    assert!(non_terminal(' '));
    assert!(!non_terminal(','));
    assert!(!non_terminal('\\'));
    assert!(!non_terminal(')'));
    assert!(!non_terminal('('));
    assert!(!non_terminal('='));
}

#[test]
fn scanner_with_given_words() {
    assert!(Scanner::with_word_flags("ab", vec![true]).is_none());
    let scanner = Scanner::with_word_flags("a-b c", vec![true, true, true, false, true]).unwrap();
    assert_eq!(scanner.len(), 5);
    assert_eq!(scanner.input(), "a-b c");
    assert_eq!(scanner.skip_word(0), 3);
    assert_eq!(scanner.some_words(0), Some((String::from("a-b c"), 5)));
    assert_eq!(scanner.rest(4), "c");
    assert_eq!(scanner.rest(9), "");
    let plain = Scanner::new("a-b c");
    assert_eq!(plain.some_words(0), Some((String::from("a"), 1)));
    assert_eq!(plain.skip_ws(3), 4);
    assert_eq!(plain.skip_ws(1), 1);
    assert_eq!(plain.skip_blank(3), 4);
    assert_eq!(plain.ws_tag(1, '-'), Some(2));
    assert_eq!(plain.ws_tag(1, '='), None);
    assert!(plain.char_at(4, 'c'));
    assert!(!plain.char_at(5, 'c'));
    assert_eq!(plain.eprim(7), None);
}
