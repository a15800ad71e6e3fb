use builder_migrate::lint::{Finding, Lint};
use builder_migrate::nodes::{
    Adt, Block, Closure, DefSegment, Expr, ExprKind, MethodCall, Namespace, Param, Path, QPath,
    Span, Stmt, StmtKind, Type,
};
use builder_migrate::parse::{as_serenity_builder_type, parse_builder_closure};
use builder_migrate::replace::{replace_closure, RewriteError};
use builder_migrate::structures::{BuilderCallArg, PreBuilderCallStatement};
use builder_migrate::text::trim;

fn span(text: &str) -> Span {
    Span { lo: 0, hi: text.len() as u32, snippet: Some(text.to_string()) }
}

fn at(lo: u32, hi: u32, text: &str) -> Span {
    Span { lo, hi, snippet: Some(text.to_string()) }
}

fn builder_type(name: &str) -> Type {
    Type::Adt(Adt {
        def_path: Path {
            krate: "serenity".to_string(),
            data: vec![
                DefSegment { namespace: Namespace::Type, name: "builder".to_string() },
                DefSegment { namespace: Namespace::Type, name: name.to_string() },
            ],
        },
    })
}

fn mut_ref(t: Type) -> Type {
    Type::Ref { mutable: true, inner: Box::new(t) }
}

fn ident(name: &str, ty: Type) -> Expr {
    Expr {
        kind: ExprKind::Path(QPath { resolved: true, segments: vec![name.to_string()], ty }),
        span: span(name),
    }
}

fn path(segments: &[&str]) -> Expr {
    Expr {
        kind: ExprKind::Path(QPath {
            resolved: true,
            segments: segments.iter().map(|s| s.to_string()).collect(),
            ty: Type::Other,
        }),
        span: span(&segments.join("::")),
    }
}

fn lit(text: &str) -> Expr {
    Expr { kind: ExprKind::Other, span: span(text) }
}

fn call(receiver: Expr, method: &str, args: Vec<Expr>) -> Expr {
    Expr {
        kind: ExprKind::MethodCall(MethodCall {
            method: method.to_string(),
            receiver: Box::new(receiver),
            args,
        }),
        span: span(method),
    }
}

/// `b.m1(a1).m2(a2)..` on the binding `b` of builder type `ty`.
fn chain(b: &str, ty: &str, calls: Vec<(&str, Vec<Expr>)>) -> Expr {
    let mut e = ident(b, mut_ref(builder_type(ty)));
    for (m, args) in calls {
        e = call(e, m, args);
    }
    e
}

fn closure_at(b: &str, ty: &str, body: Expr, sp: Span) -> Expr {
    Expr {
        kind: ExprKind::Closure(Closure {
            params: vec![Param {
                binding: Some(b.to_string()),
                ty: mut_ref(builder_type(ty)),
                span: span(b),
            }],
            body: Box::new(body),
        }),
        span: sp,
    }
}

fn closure(b: &str, ty: &str, body: Expr) -> Expr {
    closure_at(b, ty, body, span("|..| .."))
}

fn rewrite(e: &Expr) -> Result<String, RewriteError> {
    let c = parse_builder_closure(e, false).expect("a builder closure");
    replace_closure(&c)
}

fn semi(e: Expr, text: &str) -> Stmt {
    Stmt { kind: StmtKind::Semi(e), span: span(text) }
}

#[test]
fn scenario_chain_without_required_fields() {
    let body = chain("b", "CreateMessage", vec![
        ("content", vec![lit("\"hi\"")]),
        ("tts", vec![lit("true")]),
    ]);
    let e = closure("b", "CreateMessage", body);
    assert_eq!(rewrite(&e).unwrap(), "CreateMessage::new().content(\"hi\").tts(true)");
}

#[test]
fn scenario_chain_with_sole_required_field() {
    let body = chain("f", "CreateEmbedFooter", vec![
        ("text", vec![lit("\"hi\"")]),
        ("icon_url", vec![lit("url")]),
    ]);
    let e = closure("f", "CreateEmbedFooter", body);
    assert_eq!(rewrite(&e).unwrap(), "CreateEmbedFooter::new(\"hi\").icon_url(url)");
}

#[test]
fn scenario_prelude_statements() {
    let let_stmt = Stmt { kind: StmtKind::Other, span: span("let x = 1;") };
    let name_stmt = semi(chain("b", "CreateEmbed", vec![("name", vec![lit("\"n\"")])]), "b.name(\"n\");");
    let tail = chain("b", "CreateEmbed", vec![("value", vec![lit("x")])]);
    let body = Expr {
        kind: ExprKind::Block(Block { stmts: vec![let_stmt, name_stmt], expr: Some(Box::new(tail)) }),
        span: span("{ .. }"),
    };
    let e = closure("b", "CreateEmbed", body);
    let c = parse_builder_closure(&e, false).unwrap();
    assert_eq!(c.stmts.len(), 2);
    match &c.stmts[0] {
        PreBuilderCallStatement::Verbatim(sp) => assert_eq!(sp.snippet.as_deref(), Some("let x = 1;")),
        _ => panic!("the let statement is kept verbatim"),
    }
    match &c.stmts[1] {
        PreBuilderCallStatement::BuilderCallChain(ch) => {
            assert_eq!(ch.receiver, "b");
            assert_eq!(ch.calls.len(), 1);
            assert_eq!(ch.calls[0].field, "name");
        }
        _ => panic!("the statement on the binding is a chain"),
    }
    assert_eq!(c.call_chain.calls.len(), 1);
    assert_eq!(c.call_chain.calls[0].field, "value");
    assert_eq!(
        replace_closure(&c).unwrap(),
        "{\nlet mut b = CreateEmbed::new();\nlet x = 1;\nb = b.name(\"n\");\nb.value(x)\n}"
    );
}

#[test]
fn scenario_component_row_with_one_button() {
    let button = closure("b", "CreateButton", chain("b", "CreateButton", vec![("custom_id", vec![lit("\"x\"")])]));
    let row = closure("r", "CreateActionRow", chain("r", "CreateActionRow", vec![("create_button", vec![button])]));
    let e = closure("c", "CreateComponents", chain("c", "CreateComponents", vec![("create_action_row", vec![row])]));
    assert_eq!(
        rewrite(&e).unwrap(),
        "vec![CreateActionRow::Buttons(vec![CreateButton::new(\"x\")])]"
    );
}

#[test]
fn unraveled_calls_keep_source_order() {
    let names = ["a", "b", "c", "d", "e"];
    let calls = names.iter().map(|n| (*n, vec![lit(n)])).collect();
    let e = closure("x", "CreateEmbed", chain("x", "CreateEmbed", calls));
    let c = parse_builder_closure(&e, false).unwrap();
    let got: Vec<&str> = c.call_chain.calls.iter().map(|k| k.field.as_str()).collect();
    assert_eq!(got, names);
    assert_eq!(rewrite(&e).unwrap(), "CreateEmbed::new().a(a).b(b).c(c).d(d).e(e)");
}

#[test]
fn empty_chain_returns_the_binding() {
    let body = Expr {
        kind: ExprKind::Block(Block { stmts: vec![], expr: Some(Box::new(ident("b", Type::Other))) }),
        span: span("{ b }"),
    };
    let e = closure("b", "CreateEmbed", body);
    let c = parse_builder_closure(&e, false).unwrap();
    assert_eq!(c.call_chain.calls.len(), 0);
    assert_eq!(replace_closure(&c).unwrap(), "CreateEmbed::new()");
}

#[test]
fn required_fields_follow_the_table_order() {
    let body = chain("o", "CreateSelectMenuOption", vec![
        ("value", vec![lit("\"v\"")]),
        ("description", vec![lit("\"d\"")]),
        ("label", vec![lit("\"l\"")]),
    ]);
    let e = closure("o", "CreateSelectMenuOption", body);
    assert_eq!(rewrite(&e).unwrap(), "CreateSelectMenuOption::new(\"l\", \"v\").description(\"d\")");
}

#[test]
fn literals_are_emitted_as_trimmed_source() {
    for (src, want) in [("  \"hello\" ", "\"hello\""), ("42", "42"), ("\tsome_var.clone()\n", "some_var.clone()")] {
        let e = closure("b", "CreateMessage", chain("b", "CreateMessage", vec![("content", vec![lit(src)])]));
        assert_eq!(rewrite(&e).unwrap(), format!("CreateMessage::new().content({})", want));
    }
}

#[test]
fn unrecoverable_literal_becomes_placeholder() {
    let hidden = Expr { kind: ExprKind::Other, span: Span { lo: 0, hi: 0, snippet: None } };
    let e = closure("b", "CreateMessage", chain("b", "CreateMessage", vec![("content", vec![hidden])]));
    assert_eq!(rewrite(&e).unwrap(), "CreateMessage::new().content(todo!())");
}

#[test]
fn trim_removes_unicode_whitespace() {
    assert_eq!(trim("\u{3000} a b \u{a0}\n"), "a b");
    assert_eq!(trim("   "), "");
}

fn response(kind: Option<Expr>) -> Expr {
    let data = closure("d", "CreateInteractionResponseData", chain("d", "CreateInteractionResponseData", vec![
        ("content", vec![lit("\"hi\"")]),
    ]));
    let mut calls = Vec::new();
    if let Some(k) = kind {
        calls.push(("kind", vec![k]));
    }
    calls.push(("interaction_response_data", vec![data]));
    closure("r", "CreateInteractionResponse", chain("r", "CreateInteractionResponse", calls))
}

#[test]
fn response_kinds_select_their_variant() {
    let table = [
        ("Pong", "CreateInteractionResponse::Pong"),
        ("DeferredChannelMessageWithSource", "CreateInteractionResponse::Defer(CreateInteractionResponseMessage::new().content(\"hi\"))"),
        ("DeferredUpdateMessage", "CreateInteractionResponse::Acknowledge"),
        ("UpdateMessage", "CreateInteractionResponse::UpdateMessage(CreateInteractionResponseMessage::new().content(\"hi\"))"),
        ("Autocomplete", "CreateInteractionResponse::Autocomplete(CreateAutocompleteResponse::new().content(\"hi\"))"),
        ("Modal", "CreateInteractionResponse::Modal(CreateModal::new().content(\"hi\"))"),
        ("ChannelMessageWithSource", "CreateInteractionResponse::Message(CreateInteractionResponseMessage::new().content(\"hi\"))"),
    ];
    for (kind, want) in table {
        let e = response(Some(path(&["InteractionResponseType", kind])));
        assert_eq!(rewrite(&e).unwrap(), want);
    }
}

#[test]
fn unknown_or_absent_kind_falls_back_to_message() {
    let want = "CreateInteractionResponse::Message(CreateInteractionResponseMessage::new().content(\"hi\"))";
    assert_eq!(rewrite(&response(Some(path(&["InteractionResponseType", "Something"])))).unwrap(), want);
    assert_eq!(rewrite(&response(None)).unwrap(), want);
}

#[test]
fn response_data_with_statements_is_refused() {
    let inner = Expr {
        kind: ExprKind::Block(Block {
            stmts: vec![Stmt { kind: StmtKind::Other, span: span("let a = 1;") }],
            expr: Some(Box::new(chain("d", "CreateInteractionResponseData", vec![("content", vec![lit("a")])]))),
        }),
        span: span("{ .. }"),
    };
    let data = closure("d", "CreateInteractionResponseData", inner);
    let e = closure("r", "CreateInteractionResponse", chain("r", "CreateInteractionResponse", vec![
        ("interaction_response_data", vec![data]),
    ]));
    assert_eq!(rewrite(&e), Err(RewriteError::PayloadPrelude));
}

fn components(row_calls: Vec<(&str, Vec<Expr>)>) -> Expr {
    let body = if row_calls.is_empty() {
        Expr {
            kind: ExprKind::Block(Block { stmts: vec![], expr: Some(Box::new(ident("r", Type::Other))) }),
            span: span("{ r }"),
        }
    } else {
        chain("r", "CreateActionRow", row_calls)
    };
    let row = closure("r", "CreateActionRow", body);
    closure("c", "CreateComponents", chain("c", "CreateComponents", vec![("create_action_row", vec![row])]))
}

#[test]
fn link_button_and_given_button() {
    let link = closure("b", "CreateButton", chain("b", "CreateButton", vec![
        ("label", vec![lit("\"Docs\"")]),
        ("url", vec![lit("\"https://x\"")]),
    ]));
    let e = components(vec![("create_button", vec![link]), ("add_button", vec![lit("ready")])]);
    assert_eq!(
        rewrite(&e).unwrap(),
        "vec![CreateActionRow::Buttons(vec![CreateButton::new_link(\"https://x\").label(\"Docs\"), ready])]"
    );
}

#[test]
fn select_menu_row() {
    let option = closure("o", "CreateSelectMenuOption", chain("o", "CreateSelectMenuOption", vec![
        ("label", vec![lit("\"A\"")]),
        ("value", vec![lit("\"a\"")]),
    ]));
    let options = closure("os", "CreateSelectMenuOptions", chain("os", "CreateSelectMenuOptions", vec![
        ("create_option", vec![option]),
    ]));
    let menu = closure("m", "CreateSelectMenu", chain("m", "CreateSelectMenu", vec![
        ("custom_id", vec![lit("\"pick\"")]),
        ("options", vec![options]),
        ("placeholder", vec![lit("\"choose\"")]),
    ]));
    let e = components(vec![("create_select_menu", vec![menu])]);
    assert_eq!(
        rewrite(&e).unwrap(),
        "vec![CreateActionRow::SelectMenu(CreateSelectMenu::new(\"pick\", CreateSelectMenuKind::String { options: vec![CreateSelectMenuOption::new(\"A\", \"a\")] }).placeholder(\"choose\"))]"
    );
}

#[test]
fn unknown_component_call_is_refused() {
    let e = closure("c", "CreateComponents", chain("c", "CreateComponents", vec![("set_action_row", vec![lit("row")])]));
    assert_eq!(rewrite(&e), Err(RewriteError::UnexpectedCall));
}

#[test]
fn action_row_without_closure_is_refused() {
    let e = closure("c", "CreateComponents", chain("c", "CreateComponents", vec![("create_action_row", vec![lit("row")])]));
    assert_eq!(rewrite(&e), Err(RewriteError::UnexpectedArgument));
}

#[test]
fn button_without_id_or_url_is_refused() {
    let b = closure("b", "CreateButton", chain("b", "CreateButton", vec![("label", vec![lit("\"x\"")])]));
    assert_eq!(rewrite(&components(vec![("create_button", vec![b])])), Err(RewriteError::MissingField));
}

#[test]
fn input_text_is_refused() {
    let e = components(vec![("add_input_text", vec![lit("text")])]);
    assert_eq!(rewrite(&e), Err(RewriteError::UnsupportedInputText));
}

#[test]
fn empty_row_is_refused() {
    assert_eq!(rewrite(&components(vec![])), Err(RewriteError::EmptyRow));
}

#[test]
fn nested_closure_argument_is_rewritten() {
    let author = closure("a", "CreateEmbedAuthor", chain("a", "CreateEmbedAuthor", vec![("name", vec![lit("\"me\"")])]));
    let e = closure("e", "CreateEmbed", chain("e", "CreateEmbed", vec![("author", vec![author])]));
    let c = parse_builder_closure(&e, false).unwrap();
    assert!(matches!(c.call_chain.calls[0].args[0], BuilderCallArg::NestedClosure(_)));
    assert_eq!(replace_closure(&c).unwrap(), "CreateEmbed::new().author(CreateEmbedAuthor::new(\"me\"))");
}

#[test]
fn type_classifier_peels_references() {
    let t = Type::Ref { mutable: false, inner: Box::new(mut_ref(builder_type("CreateEmbed"))) };
    assert_eq!(as_serenity_builder_type(&t).as_deref(), Some("CreateEmbed"));
    assert_eq!(as_serenity_builder_type(&Type::Other), None);
    let other = Type::Adt(Adt {
        def_path: Path {
            krate: "other".to_string(),
            data: vec![
                DefSegment { namespace: Namespace::Type, name: "builder".to_string() },
                DefSegment { namespace: Namespace::Type, name: "CreateEmbed".to_string() },
            ],
        },
    });
    assert_eq!(as_serenity_builder_type(&other), None);
}

#[test]
fn shared_reference_parameter_is_no_match() {
    let mut e = closure("b", "CreateEmbed", chain("b", "CreateEmbed", vec![("title", vec![lit("t")])]));
    if let ExprKind::Closure(c) = &mut e.kind {
        c.params[0].ty = Type::Ref { mutable: false, inner: Box::new(builder_type("CreateEmbed")) };
    }
    assert!(parse_builder_closure(&e, false).is_none());
}

#[test]
fn strict_mode_needs_a_typed_receiver() {
    let body = call(ident("b", Type::Other), "title", vec![lit("t")]);
    let e = closure("b", "CreateEmbed", body);
    assert!(parse_builder_closure(&e, true).is_none());
    assert!(parse_builder_closure(&e, false).is_some());
    let typed = closure("b", "CreateEmbed", chain("b", "CreateEmbed", vec![("title", vec![lit("t")])]));
    assert!(parse_builder_closure(&typed, true).is_some());
}

#[test]
fn lint_skips_spans_inside_a_replacement() {
    let inner = closure_at("a", "CreateEmbedAuthor", chain("a", "CreateEmbedAuthor", vec![("name", vec![lit("\"me\"")])]), at(20, 40, "|a| a.name(\"me\")"));
    let outer = closure_at("e", "CreateEmbed", chain("e", "CreateEmbed", vec![("author", vec![inner])]), at(10, 50, "|e| .."));
    let mut lint = Lint::new(false);
    assert_eq!(lint.name(), "old_builders");
    match lint.check_expr(&outer) {
        Some(Finding::Replace { lo, hi, text }) => {
            assert_eq!((lo, hi), (10, 50));
            assert_eq!(text, "CreateEmbed::new().author(CreateEmbedAuthor::new(\"me\"))");
        }
        _ => panic!("the outer closure is replaced"),
    }
    let inner_again = closure_at("a", "CreateEmbedAuthor", chain("a", "CreateEmbedAuthor", vec![("name", vec![lit("\"me\"")])]), at(20, 40, "|a| a.name(\"me\")"));
    assert!(lint.check_expr(&inner_again).is_none());
    assert_eq!(lint.rewritten, vec![(10, 50)]);
}

#[test]
fn lint_notes_a_builder_it_cannot_rewrite() {
    let mut lint = Lint::new(false);
    match lint.check_expr(&components(vec![])) {
        Some(Finding::Note { reason, .. }) => assert_eq!(reason, RewriteError::EmptyRow),
        _ => panic!("a note"),
    }
    assert!(lint.rewritten.is_empty());
}

#[test]
fn lint_rewrites_a_chain_statement() {
    let stmt = Stmt {
        kind: StmtKind::Semi(chain("b", "CreateEmbed", vec![("title", vec![lit("t")]), ("color", vec![lit("3")])])),
        span: at(5, 30, "b.title(t).color(3);"),
    };
    let mut lint = Lint::new(true);
    match lint.check_stmt(&stmt) {
        Some(Finding::Replace { text, .. }) => assert_eq!(text, "b = b.title(t).color(3);"),
        _ => panic!("a replacement"),
    }
    let other = Stmt { kind: StmtKind::Other, span: at(40, 50, "let y = 2;") };
    assert!(lint.check_stmt(&other).is_none());
}

#[test]
fn rewrite_is_not_a_closure_again() {
    let e = closure("b", "CreateMessage", chain("b", "CreateMessage", vec![("content", vec![lit("\"hi\"")])]));
    let out = rewrite(&e).unwrap();
    assert!(out.starts_with("CreateMessage::new("));
    assert!(!out.starts_with('|'));
}

#[test]
fn path_parts_and_node_accessors() {
    let p = Path {
        krate: "serenity".to_string(),
        data: vec![
            DefSegment { namespace: Namespace::Type, name: "builder".to_string() },
            DefSegment { namespace: Namespace::Other, name: "{impl}".to_string() },
            DefSegment { namespace: Namespace::Value, name: "f".to_string() },
        ],
    };
    assert_eq!(p.parts(), vec!["serenity", "builder", "f"]);
    let e = call(ident("b", Type::Other), "title", vec![lit("t")]);
    let m = e.method_call().unwrap();
    assert_eq!(m.method_name(), "title");
    assert_eq!(m.args().len(), 1);
    assert!(e.closure().is_none());
    let block = Expr {
        kind: ExprKind::Block(Block { stmts: vec![], expr: Some(Box::new(lit("1"))) }),
        span: span("{ 1 }"),
    };
    assert_eq!(block.single_expr_block().unwrap().span.snippet.as_deref(), Some("1"));
}

#[test]
fn migrate_rewrites_a_builder_closure() {
    let body = chain("b", "CreateMessage", vec![
        ("content", vec![lit(" \"hi\" ")]),
        ("tts", vec![lit("true")]),
    ]);
    let e = closure("b", "CreateMessage", body);
    assert_eq!(
        builder_migrate::migrate::migrate(&e).unwrap(),
        "CreateMessage::new().content(\"hi\").tts(true)"
    );
    assert!(builder_migrate::migrate::migrate(&lit("1")).is_none());
}

#[test]
fn migrate_rewrites_nested_builder_closures() {
    let embed = closure("e", "CreateEmbed", chain("e", "CreateEmbed", vec![("title", vec![lit("\"t\"")])]));
    let e = closure("m", "CreateMessage", chain("m", "CreateMessage", vec![("embed", vec![embed])]));
    assert_eq!(
        builder_migrate::migrate::migrate(&e).unwrap(),
        "CreateMessage::new().embed(CreateEmbed::new().title(\"t\"))"
    );
}

#[test]
fn migrate_refuses_a_chain_on_a_call_result() {
    let make = Expr { kind: ExprKind::Other, span: span("make()") };
    let e = closure("b", "CreateMessage", call(make, "content", vec![lit("\"hi\"")]));
    assert!(builder_migrate::migrate::migrate(&e).is_none());
}

#[test]
fn migrate_refuses_a_shared_reference() {
    let mut e = closure("b", "CreateMessage", chain("b", "CreateMessage", vec![("tts", vec![lit("true")])]));
    if let ExprKind::Closure(c) = &mut e.kind {
        c.params[0].ty = Type::Ref { mutable: false, inner: Box::new(builder_type("CreateMessage")) };
    }
    assert!(builder_migrate::migrate::migrate(&e).is_none());
}

#[test]
fn verbatim_prelude_keeps_its_text() {
    let let_stmt = Stmt { kind: StmtKind::Other, span: span("  let x = 1;  ") };
    let tail = chain("b", "CreateEmbed", vec![("value", vec![lit("x")])]);
    let body = Expr {
        kind: ExprKind::Block(Block { stmts: vec![let_stmt], expr: Some(Box::new(tail)) }),
        span: span("{ .. }"),
    };
    let e = closure("b", "CreateEmbed", body);
    assert_eq!(rewrite(&e).unwrap(), "{\nlet mut b = CreateEmbed::new();\n  let x = 1;  \nb.value(x)\n}");
}

#[test]
fn data_prelude_is_refused_without_payload() {
    let inner = Expr {
        kind: ExprKind::Block(Block {
            stmts: vec![Stmt { kind: StmtKind::Other, span: span("let a = 1;") }],
            expr: Some(Box::new(chain("d", "CreateInteractionResponseData", vec![("content", vec![lit("a")])]))),
        }),
        span: span("{ .. }"),
    };
    let data = closure("d", "CreateInteractionResponseData", inner);
    let e = closure("r", "CreateInteractionResponse", chain("r", "CreateInteractionResponse", vec![
        ("kind", vec![path(&["InteractionResponseType", "Pong"])]),
        ("interaction_response_data", vec![data]),
    ]));
    assert_eq!(rewrite(&e), Err(RewriteError::PayloadPrelude));
}

#[test]
fn kind_that_is_not_a_path_falls_back_to_message() {
    let e = response(Some(lit("kind_var")));
    assert_eq!(
        rewrite(&e).unwrap(),
        "CreateInteractionResponse::Message(CreateInteractionResponseMessage::new().content(\"hi\"))"
    );
}

#[test]
fn arguments_are_joined_by_comma() {
    let e = closure("b", "CreateMessage", chain("b", "CreateMessage", vec![("pair", vec![lit("1"), lit(" 2 ")])]));
    let c = parse_builder_closure(&e, false).unwrap();
    assert_eq!(builder_migrate::replace::field_arg_string(&c.call_chain.calls[0].args).unwrap(), "1, 2");
    assert_eq!(builder_migrate::replace::field_arg_string(&Vec::new()).unwrap(), "");
}

#[test]
fn source_code_is_trimmed_or_placeholder() {
    assert_eq!(lit("  a.b()  ").source_code(), "a.b()");
    let hidden = Expr { kind: ExprKind::Other, span: Span { lo: 1, hi: 2, snippet: None } };
    assert_eq!(hidden.source_code(), "todo!()");
}
