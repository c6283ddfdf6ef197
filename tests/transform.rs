use timeout_macro_parse::error::{Attribute, Error, ErrorKind};
use timeout_macro_parse::inject::{extract_inner_body, try_inject};
use timeout_macro_parse::parse_attr::{parse_attr, OnError, ParsedDuration};
use timeout_macro_parse::parse_duration::DurationError;
use timeout_macro_parse::report::to_error_report;
use timeout_macro_parse::token::{
    Delimiter, Group, Ident, Literal, Punct, Spacing, Span, TokenTree,
};
use timeout_macro_parse::{tokio_timeout, TokioTimeoutInjector};

fn ident(name: &str, at: usize) -> TokenTree {
    TokenTree::Ident(Ident { name: name.to_string(), span: Span::Source(at) })
}

fn punct(ch: char, at: usize) -> TokenTree {
    TokenTree::Punct(Punct { ch, spacing: Spacing::Alone, span: Span::Source(at) })
}

fn lit(text: &str, at: usize) -> TokenTree {
    TokenTree::Literal(Literal { text: text.to_string(), span: Span::Source(at) })
}

fn group(delimiter: Delimiter, stream: Vec<TokenTree>, at: usize) -> TokenTree {
    TokenTree::Group(Group { delimiter, stream, span: Span::Source(at) })
}

/// Writes tokens out as source text, one space between tokens but for
/// joint punctuation.
fn render(tokens: &[TokenTree]) -> String {
    let mut out = String::new();
    for (i, t) in tokens.iter().enumerate() {
        match t {
            TokenTree::Ident(id) => out.push_str(&id.name),
            TokenTree::Literal(l) => out.push_str(&l.text),
            TokenTree::Punct(p) => out.push(p.ch),
            TokenTree::Group(g) => {
                let (open, close) = match g.delimiter {
                    Delimiter::Parenthesis => ("(", ")"),
                    Delimiter::Brace => ("{", "}"),
                    Delimiter::Bracket => ("[", "]"),
                    Delimiter::Invisible => ("", ""),
                };
                out.push_str(open);
                let inner = render(&g.stream);
                if !inner.is_empty() {
                    out.push(' ');
                    out.push_str(&inner);
                    out.push(' ');
                }
                out.push_str(close);
            }
        }
        let joint = matches!(t, TokenTree::Punct(p) if p.spacing == Spacing::Joint);
        if i + 1 < tokens.len() && !joint {
            out.push(' ');
        }
    }
    out
}

/// `duration = <value>, on_error = <value>`, the values given as tokens.
fn config(duration: Vec<TokenTree>, on_error: Vec<TokenTree>) -> Vec<TokenTree> {
    let mut v = vec![ident("duration", 0), punct('=', 1)];
    v.extend(duration);
    v.push(punct(',', 10));
    v.push(ident("on_error", 11));
    v.push(punct('=', 12));
    v.extend(on_error);
    v
}

/// `async fn foo() { sleep(); 1 }`
fn sleepy_fn() -> Vec<TokenTree> {
    vec![
        ident("async", 20),
        ident("fn", 21),
        ident("foo", 22),
        group(Delimiter::Parenthesis, vec![], 23),
        group(
            Delimiter::Brace,
            vec![
                ident("sleep", 25),
                group(Delimiter::Parenthesis, vec![], 26),
                punct(';', 27),
                lit("1", 28),
            ],
            24,
        ),
    ]
}

fn attr_error(attr: Vec<TokenTree>) -> Error {
    match parse_attr(attr) {
        Ok(_) => panic!("configuration accepted"),
        Err(e) => e,
    }
}

fn item_error(item: Vec<TokenTree>) -> Error {
    match extract_inner_body(item) {
        Ok(_) => panic!("item accepted"),
        Err(e) => e,
    }
}

#[test]
fn literal_duration_and_panic_policy() {
    let opts = parse_attr(config(vec![lit("\"1ms\"", 2)], vec![lit("\"panic\"", 13)])).unwrap();
    match &opts.duration {
        ParsedDuration::Duration(d) => {
            assert_eq!(d.as_secs(), 0);
            assert_eq!(d.subsec_nanos(), 1_000_000);
        }
        ParsedDuration::Ref(_) => panic!("expected a literal"),
    }
    assert!(matches!(opts.on_error, OnError::Panic));
}

#[test]
fn reference_values_are_kept_verbatim() {
    let duration = vec![ident("crate", 2), punct(':', 3), punct(':', 4), ident("MY_DUR", 5)];
    let on_error = vec![ident("my_err", 13)];
    let opts = parse_attr(config(duration, on_error)).unwrap();
    match opts.duration {
        ParsedDuration::Ref(r) => assert_eq!(
            r,
            vec![ident("crate", 2), punct(':', 3), punct(':', 4), ident("MY_DUR", 5)]
        ),
        ParsedDuration::Duration(_) => panic!("expected a reference"),
    }
    match opts.on_error {
        OnError::Callable(c) => assert_eq!(c, vec![ident("my_err", 13)]),
        OnError::Panic => panic!("expected a callable"),
    }
}

#[test]
fn clauses_may_come_in_either_order() {
    let attr = vec![
        ident("on_error", 0),
        punct('=', 1),
        ident("handler", 2),
        punct(',', 3),
        ident("duration", 4),
        punct('=', 5),
        ident("LIMIT", 6),
        punct(',', 7),
    ];
    let opts = parse_attr(attr).unwrap();
    match (opts.duration, opts.on_error) {
        (ParsedDuration::Ref(d), OnError::Callable(c)) => {
            assert_eq!(d, vec![ident("LIMIT", 6)]);
            assert_eq!(c, vec![ident("handler", 2)]);
        }
        _ => panic!("expected two references"),
    }
}

#[test]
fn reference_may_hold_groups() {
    let duration = vec![
        ident("Duration", 2),
        punct(':', 3),
        punct(':', 4),
        ident("from_millis", 5),
        group(Delimiter::Parenthesis, vec![lit("5", 7)], 6),
    ];
    let opts = parse_attr(config(duration, vec![lit("\"panic\"", 13)])).unwrap();
    match opts.duration {
        ParsedDuration::Ref(r) => assert_eq!(render(&r), "Duration : : from_millis ( 5 )"),
        ParsedDuration::Duration(_) => panic!("expected a reference"),
    }
}

#[test]
fn second_duration_is_a_duplicate() {
    let mut attr = config(vec![lit("\"1s\"", 2)], vec![lit("\"panic\"", 13)]);
    attr.push(punct(',', 14));
    attr.push(ident("duration", 15));
    attr.push(punct('=', 16));
    attr.push(lit("\"2s\"", 17));
    assert_eq!(
        attr_error(attr),
        Error::Positioned(ErrorKind::DuplicateAttribute(Attribute::Duration), Span::Source(15))
    );
}

#[test]
fn second_on_error_is_a_duplicate() {
    let attr = vec![
        ident("on_error", 0),
        punct('=', 1),
        lit("\"panic\"", 2),
        ident("on_error", 3),
    ];
    assert_eq!(
        attr_error(attr),
        Error::Positioned(ErrorKind::DuplicateAttribute(Attribute::OnError), Span::Source(3))
    );
}

#[test]
fn unknown_key_is_refused() {
    let attr = vec![ident("timeout", 0), punct('=', 1), lit("\"1s\"", 2)];
    assert_eq!(
        attr_error(attr),
        Error::Positioned(ErrorKind::UnknownAttribute("timeout".to_string()), Span::Source(0))
    );
}

#[test]
fn panic_is_the_only_literal_policy() {
    let attr = config(vec![lit("\"1s\"", 2)], vec![lit("\"panico\"", 13)]);
    assert_eq!(
        attr_error(attr),
        Error::Positioned(ErrorKind::UnsupportedLiteral, Span::Source(13))
    );
}

#[test]
fn missing_keys_are_reported_without_position() {
    assert_eq!(
        attr_error(vec![]),
        Error::PositionMissing(ErrorKind::MissingAttribute(Attribute::Duration))
    );
    let attr = vec![ident("duration", 0), punct('=', 1), lit("\"1s\"", 2)];
    assert_eq!(
        attr_error(attr),
        Error::PositionMissing(ErrorKind::MissingAttribute(Attribute::OnError))
    );
    let attr = vec![ident("on_error", 0), punct('=', 1), lit("\"panic\"", 2)];
    assert_eq!(
        attr_error(attr),
        Error::PositionMissing(ErrorKind::MissingAttribute(Attribute::Duration))
    );
}

#[test]
fn misplaced_tokens_are_unexpected() {
    assert_eq!(
        attr_error(vec![punct(';', 0)]),
        Error::Positioned(ErrorKind::UnexpectedToken, Span::Source(0))
    );
    assert_eq!(
        attr_error(vec![lit("\"1s\"", 4)]),
        Error::Positioned(ErrorKind::UnexpectedToken, Span::Source(4))
    );
    assert_eq!(
        attr_error(vec![punct(',', 0), group(Delimiter::Bracket, vec![], 1)]),
        Error::Positioned(ErrorKind::UnexpectedToken, Span::Source(1))
    );
    let attr = vec![ident("duration", 0), punct('=', 1), lit("\"1s\"", 2), lit("\"2s\"", 3)];
    assert_eq!(
        attr_error(attr),
        Error::Positioned(ErrorKind::UnexpectedToken, Span::Source(3))
    );
}

#[test]
fn key_needs_equals_and_value() {
    assert_eq!(
        attr_error(vec![ident("duration", 0)]),
        Error::Positioned(ErrorKind::MissingEquals(Attribute::Duration), Span::Source(0))
    );
    assert_eq!(
        attr_error(vec![ident("on_error", 0), punct(':', 1)]),
        Error::Positioned(ErrorKind::MissingEquals(Attribute::OnError), Span::Source(1))
    );
    assert_eq!(
        attr_error(vec![ident("duration", 0), ident("x", 1)]),
        Error::Positioned(ErrorKind::MissingEquals(Attribute::Duration), Span::Source(1))
    );
    assert_eq!(
        attr_error(vec![ident("on_error", 0), punct('=', 1)]),
        Error::Positioned(ErrorKind::MissingValue(Attribute::OnError), Span::Source(0))
    );
}

#[test]
fn bad_duration_literal_points_at_the_literal() {
    let attr = config(vec![lit("\"1z\"", 2)], vec![lit("\"panic\"", 13)]);
    assert_eq!(
        attr_error(attr),
        Error::Positioned(
            ErrorKind::InvalidDuration(DurationError::UnknownUnit('z')),
            Span::Source(2)
        )
    );
    let attr = config(vec![lit("\"0s\"", 2)], vec![lit("\"panic\"", 13)]);
    assert_eq!(
        attr_error(attr),
        Error::Positioned(ErrorKind::InvalidDuration(DurationError::ZeroDuration), Span::Source(2))
    );
}

#[test]
fn item_without_async_is_refused() {
    let item = vec![
        ident("fn", 0),
        ident("foo", 1),
        group(Delimiter::Parenthesis, vec![], 2),
        group(Delimiter::Brace, vec![], 3),
    ];
    assert_eq!(item_error(item), Error::PositionMissing(ErrorKind::NotAsyncFunction));
}

#[test]
fn item_without_fn_is_refused() {
    let item = vec![
        ident("async", 0),
        ident("struct", 1),
        ident("Foo", 2),
        group(Delimiter::Brace, vec![], 3),
    ];
    assert_eq!(
        item_error(item),
        Error::PositionMissing(ErrorKind::MissingFunctionDeclaration)
    );
    assert_eq!(
        item_error(vec![]),
        Error::PositionMissing(ErrorKind::MissingFunctionDeclaration)
    );
}

#[test]
fn item_without_braced_body_is_refused() {
    let item = vec![
        ident("async", 0),
        ident("fn", 1),
        ident("foo", 2),
        group(Delimiter::Parenthesis, vec![], 3),
        punct(';', 4),
    ];
    assert_eq!(item_error(item), Error::PositionMissing(ErrorKind::MissingFunctionBody));
    let item = vec![
        ident("async", 0),
        ident("fn", 1),
        ident("foo", 2),
        group(Delimiter::Parenthesis, vec![], 3),
    ];
    assert_eq!(
        item_error(item),
        Error::Positioned(ErrorKind::MissingFunctionBody, Span::Source(3))
    );
}

#[test]
fn token_where_name_belongs_is_unexpected() {
    let item = vec![
        ident("async", 0),
        ident("fn", 1),
        punct('<', 2),
        group(Delimiter::Brace, vec![], 3),
    ];
    assert_eq!(
        item_error(item),
        Error::Positioned(ErrorKind::UnexpectedToken, Span::Source(2))
    );
}

#[test]
fn extractor_splits_signature_and_body() {
    let item = vec![
        ident("pub", 0),
        ident("async", 1),
        ident("fn", 2),
        ident("with_self", 3),
        group(Delimiter::Parenthesis, vec![punct('&', 5), ident("self", 6)], 4),
        group(Delimiter::Brace, vec![lit("1", 8)], 7),
    ];
    let f = extract_inner_body(item).unwrap();
    assert_eq!(f.name, "with_self");
    assert_eq!(render(&f.preamble), "pub async fn with_self ( & self )");
    assert_eq!(f.body, vec![lit("1", 8)]);
}

#[test]
fn end_to_end_literal_and_panic() {
    let attr = config(vec![lit("\"1ms\"", 2)], vec![lit("\"panic\"", 13)]);
    let out = tokio_timeout(attr, Span::Source(100), sleepy_fn(), Span::Source(101));
    assert_eq!(
        render(&out),
        "async fn foo () { match tokio :: time :: timeout ( core :: time :: Duration :: new ( 0 , \
         1000000u32 ) , async { sleep () ; 1 } ) . await { Ok ( v ) => v , Err ( _ ) => \
         panic ! ( \"timeout\" ) } }"
    );
}

#[test]
fn end_to_end_chained_literal_and_callable() {
    let attr = config(vec![lit("\"1h100ms20m10s25ms15s\"", 2)], vec![ident("thing", 13)]);
    let out = tokio_timeout(attr, Span::Source(100), sleepy_fn(), Span::Source(101));
    assert_eq!(
        render(&out),
        "async fn foo () { match tokio :: time :: timeout ( core :: time :: Duration :: new ( 4825 , \
         125000000u32 ) , async { sleep () ; 1 } ) . await { Ok ( v ) => v , Err ( _ ) => \
         thing ( \"timeout\" ) } }"
    );
}

#[test]
fn end_to_end_reference_duration() {
    let attr = config(vec![ident("MY_DUR", 2)], vec![ident("my_err", 13)]);
    let out = tokio_timeout(attr, Span::Source(100), sleepy_fn(), Span::Source(101));
    assert_eq!(
        render(&out),
        "async fn foo () { match tokio :: time :: timeout ( MY_DUR , async { sleep () ; 1 } ) \
         . await { Ok ( v ) => v , Err ( _ ) => my_err ( \"timeout\" ) } }"
    );
}

#[test]
fn end_to_end_configuration_error_is_reported() {
    let attr = config(vec![lit("\"1z\"", 2)], vec![lit("\"panic\"", 13)]);
    let out = tokio_timeout(attr, Span::Source(100), sleepy_fn(), Span::Source(101));
    assert_eq!(render(&out), ":: core :: compile_error ! { \"unknown unit start: 'z'\" }");
    assert!(out.iter().all(|t| matches!(t, TokenTree::Punct(p) if p.span == Span::Source(2))
        || matches!(t, TokenTree::Ident(i) if i.span == Span::Source(2))
        || matches!(t, TokenTree::Group(g) if g.span == Span::Source(2))));
}

#[test]
fn end_to_end_missing_key_falls_back_to_the_configuration() {
    let attr = vec![ident("duration", 0), punct('=', 1), lit("\"1s\"", 2)];
    let out = tokio_timeout(attr, Span::Source(100), sleepy_fn(), Span::Source(101));
    assert_eq!(render(&out), ":: core :: compile_error ! { \"Missing 'on_error' attribute\" }");
    match &out[2] {
        TokenTree::Ident(i) => assert_eq!(i.span, Span::Source(100)),
        _ => panic!("expected an identifier"),
    }
}

#[test]
fn end_to_end_item_error_falls_back_to_the_item() {
    let attr = config(vec![lit("\"1s\"", 2)], vec![lit("\"panic\"", 13)]);
    let item = vec![ident("fn", 0), ident("foo", 1), group(Delimiter::Brace, vec![], 2)];
    let out = tokio_timeout(attr, Span::Source(100), item, Span::Source(101));
    assert_eq!(
        render(&out),
        ":: core :: compile_error ! { \"'timeout' macro only allowed on async functions\" }"
    );
    match &out[0] {
        TokenTree::Punct(p) => assert_eq!(p.span, Span::Source(101)),
        _ => panic!("expected punctuation"),
    }
}

#[test]
fn injector_keeps_the_signature() {
    let opts = parse_attr(config(vec![lit("\"2s\"", 2)], vec![lit("\"panic\"", 13)])).unwrap();
    let out = try_inject(TokioTimeoutInjector(opts), sleepy_fn()).unwrap();
    assert_eq!(out.len(), 5);
    assert_eq!(render(&out[..4]), "async fn foo ()");
}

#[test]
fn duration_literal_tokens() {
    let d = match parse_attr(config(vec![lit("\"1h1ms\"", 2)], vec![lit("\"panic\"", 13)]))
        .unwrap()
        .duration
    {
        ParsedDuration::Duration(d) => d,
        ParsedDuration::Ref(_) => panic!("expected a literal"),
    };
    let ts = ParsedDuration::Duration(d).into_token_stream();
    assert_eq!(render(&ts), "core :: time :: Duration :: new ( 3600 , 1000000u32 )");
    let args = match &ts[10] {
        TokenTree::Group(g) => &g.stream,
        _ => panic!("expected the argument list"),
    };
    let (secs, nanos) = match (&args[0], &args[2]) {
        (TokenTree::Literal(s), TokenTree::Literal(n)) => (s.text.clone(), n.text.clone()),
        _ => panic!("expected two literals"),
    };
    let secs: u64 = secs.parse().unwrap();
    let nanos: u32 = nanos.trim_end_matches("u32").parse().unwrap();
    assert_eq!(
        std::time::Duration::new(secs, nanos),
        std::time::Duration::from_secs(3600) + std::time::Duration::from_millis(1)
    );
    let ts = OnError::Panic.into_token_stream();
    assert_eq!(render(&ts), "panic ! ( \"timeout\" )");
}

#[test]
fn literals_are_written_as_source_text() {
    assert_eq!(Literal::u64_unsuffixed(1234).text, "1234");
    assert_eq!(Literal::u64_unsuffixed(0).text, "0");
    assert_eq!(Literal::u64_unsuffixed(u64::MAX).text, "18446744073709551615");
    assert_eq!(Literal::u32_suffixed(7).text, "7u32");
    assert_eq!(Literal::string("timeout").text, "\"timeout\"");
    assert_eq!(Literal::string("a\"b\\c").text, "\"a\\\"b\\\\c\"");
}

#[test]
fn error_report_tokens() {
    let ts = to_error_report("boom", Span::Source(3));
    assert_eq!(render(&ts), ":: core :: compile_error ! { \"boom\" }");
    assert_eq!(ts.len(), 8);
}

#[test]
fn error_positions_are_filled_once() {
    let e = Error::missing_span(ErrorKind::NotAsyncFunction);
    assert_eq!(
        e.with_span_if_missing(Span::Source(1)),
        Error::Positioned(ErrorKind::NotAsyncFunction, Span::Source(1))
    );
    let e = Error::with_span(Span::Source(2), ErrorKind::UnexpectedToken);
    assert_eq!(
        e.with_span_if_missing(Span::Source(1)),
        Error::Positioned(ErrorKind::UnexpectedToken, Span::Source(2))
    );
    let d = Error::missing_span(ErrorKind::MissingFunctionBody)
        .into_to_syn_with_fallback_span(Span::CallSite);
    assert_eq!(d.span, Span::CallSite);
    assert_eq!(d.kind.message(), "'timeout' macro used on something without a body");
}

#[test]
fn error_messages() {
    assert_eq!(
        ErrorKind::UnknownAttribute("foo".to_string()).message(),
        "Unknown attribute: foo"
    );
    assert_eq!(
        ErrorKind::DuplicateAttribute(Attribute::Duration).message(),
        "Duplicate 'duration' attribute"
    );
    assert_eq!(
        ErrorKind::MissingEquals(Attribute::OnError).message(),
        "Expected '=' after 'on_error'"
    );
    assert_eq!(
        ErrorKind::InvalidDuration(DurationError::EmptyNumericSection).message(),
        "failed to parse number: empty section"
    );
}
