use std::str::FromStr;

use bevy_state_macros::{
    add_systems, on, on_enter, on_exit, on_pause, on_resume, on_update, trigger_from_name,
    Delimiter, ErrorKind, Registry, Step, Token, TokenRange, TriggerKind,
};
use proc_macro2::{Spacing, TokenStream, TokenTree};

fn flatten_into(ts: TokenStream, out: &mut Vec<Token>) {
    for tt in ts {
        match tt {
            TokenTree::Ident(i) => out.push(Token::Ident { text: i.to_string() }),
            TokenTree::Punct(p) => out.push(Token::Punct {
                ch: p.as_char(),
                joint: p.spacing() == Spacing::Joint,
            }),
            TokenTree::Literal(l) => out.push(Token::Literal { text: l.to_string() }),
            TokenTree::Group(g) => {
                let delim = match g.delimiter() {
                    proc_macro2::Delimiter::Parenthesis => Delimiter::Parenthesis,
                    proc_macro2::Delimiter::Bracket => Delimiter::Bracket,
                    proc_macro2::Delimiter::Brace => Delimiter::Brace,
                    proc_macro2::Delimiter::None => Delimiter::Invisible,
                };
                let at = out.len();
                out.push(Token::Open { delim, close: 0 });
                flatten_into(g.stream(), out);
                let close = out.len();
                out.push(Token::Close { delim });
                out[at] = Token::Open { delim, close };
            }
        }
    }
}

fn lex(src: &str) -> Vec<Token> {
    let mut out = Vec::new();
    flatten_into(TokenStream::from_str(src).unwrap(), &mut out);
    out
}

fn text(toks: &[Token], r: TokenRange) -> String {
    let mut s = String::new();
    for t in &toks[r.start..r.end] {
        match t {
            Token::Ident { text } | Token::Literal { text } => {
                if !s.is_empty() && !s.ends_with(|c: char| "(<[:'.&".contains(c)) {
                    s.push(' ');
                }
                s.push_str(text);
            }
            Token::Punct { ch, .. } => s.push(*ch),
            Token::Open { delim, .. } => s.push(match delim {
                Delimiter::Parenthesis => '(',
                Delimiter::Bracket => '[',
                Delimiter::Brace => '{',
                Delimiter::Invisible => ' ',
            }),
            Token::Close { delim } => s.push(match delim {
                Delimiter::Parenthesis => ')',
                Delimiter::Bracket => ']',
                Delimiter::Brace => '}',
                Delimiter::Invisible => ' ',
            }),
        }
    }
    s
}

fn ident(toks: &[Token], at: usize) -> String {
    match &toks[at] {
        Token::Ident { text } => text.clone(),
        other => panic!("not an identifier: {:?}", other),
    }
}

#[test]
fn trigger_table() {
    let cases = [
        ("on", Some(TriggerKind::Update)),
        ("on_update", Some(TriggerKind::Update)),
        ("on_enter", Some(TriggerKind::Enter)),
        ("on_exit", Some(TriggerKind::Exit)),
        ("on_pause", Some(TriggerKind::Pause)),
        ("on_resume", Some(TriggerKind::Resume)),
        ("on_start", None),
        ("", None),
    ];
    for (name, kind) in cases {
        assert_eq!(trigger_from_name(&name.to_string()), kind, "{}", name);
    }
    assert_eq!(TriggerKind::Update.name(), "on_update");
    assert_eq!(TriggerKind::Resume.name(), "on_resume");
}

#[test]
fn batch_with_inline_and_defined_entries() {
    let toks = lex("app, [A, #[on(S::X)] B, C::<u32>]");
    let plan = add_systems(&toks).unwrap();
    assert_eq!(ident(&toks, plan.app), "app");
    assert_eq!(plan.steps.len(), 3);
    match &plan.steps[0] {
        Step::Companion { routine, system } => {
            assert_eq!(routine, "_add_A");
            assert!(system.generics.is_empty());
        }
        other => panic!("{:?}", other),
    }
    match &plan.steps[1] {
        Step::Register { registration } => {
            assert_eq!(registration.key.state_type, "S");
            assert_eq!(registration.key.variant, "X");
            assert_eq!(registration.key.kind, TriggerKind::Update);
            assert_eq!(ident(&toks, registration.system.name), "B");
            assert_eq!(ident(&toks, registration.state.name), "S");
            assert_eq!(ident(&toks, registration.state.variant), "X");
            assert_eq!(registration.state.extra, None);
        }
        other => panic!("{:?}", other),
    }
    match &plan.steps[2] {
        Step::Companion { routine, system } => {
            assert_eq!(routine, "_add_C");
            assert_eq!(ident(&toks, system.name), "C");
            assert_eq!(system.generics.len(), 1);
            assert_eq!(text(&toks, system.generics[0]), "u32");
        }
        other => panic!("{:?}", other),
    }
}

#[test]
fn batch_without_comma_and_with_trailing_comma() {
    let toks = lex("app [spawn, #[on_exit(State::Test)] state_exit::<Cleanup>, state_update,]");
    let plan = add_systems(&toks).unwrap();
    assert_eq!(plan.steps.len(), 3);
    match &plan.steps[1] {
        Step::Register { registration } => {
            assert_eq!(registration.key.kind, TriggerKind::Exit);
            assert_eq!(ident(&toks, registration.system.name), "state_exit");
            assert_eq!(text(&toks, registration.system.generics[0]), "Cleanup");
        }
        other => panic!("{:?}", other),
    }
}

#[test]
fn empty_batch() {
    let toks = lex("app, []");
    assert!(add_systems(&toks).unwrap().steps.is_empty());
}

#[test]
fn generic_arguments_kept_in_order() {
    let toks = lex("app, [#[on(S::X)] f::<A, B>, #[on(S::X)] g]");
    let plan = add_systems(&toks).unwrap();
    match &plan.steps[0] {
        Step::Register { registration } => {
            let g = &registration.system.generics;
            assert_eq!(g.len(), 2);
            assert_eq!(text(&toks, g[0]), "A");
            assert_eq!(text(&toks, g[1]), "B");
        }
        other => panic!("{:?}", other),
    }
    match &plan.steps[1] {
        Step::Register { registration } => assert!(registration.system.generics.is_empty()),
        other => panic!("{:?}", other),
    }
}

#[test]
fn nested_generic_arguments() {
    let toks = lex("app, [f::<Vec<Vec<u8>>, fn(u8) -> u8, [u8; 4], (A, B),>]");
    let plan = add_systems(&toks).unwrap();
    match &plan.steps[0] {
        Step::Companion { system, .. } => {
            let g: Vec<String> = system.generics.iter().map(|r| text(&toks, *r)).collect();
            assert_eq!(g, vec!["Vec<Vec<u8>>", "fn(u8)-> u8", "[u8; 4]", "(A, B)"]);
        }
        other => panic!("{:?}", other),
    }
}

#[test]
fn modifier_stays_with_its_entry() {
    let toks = lex("app, [#[on(S::X, .after(a))] b, #[on(S::X)] c]");
    let plan = add_systems(&toks).unwrap();
    let extras: Vec<Option<String>> = plan
        .steps
        .iter()
        .map(|s| match s {
            Step::Register { registration } => registration.state.extra.map(|r| text(&toks, r)),
            other => panic!("{:?}", other),
        })
        .collect();
    assert_eq!(extras, vec![Some(".after(a)".to_string()), None]);
}

#[test]
fn malformed_state_emits_nothing() {
    let toks = lex("app, [#[on(S)] a]");
    let e = add_systems(&toks).unwrap_err();
    assert_eq!(e.kind, ErrorKind::MalformedState);
    let attr = lex("S");
    let item = lex("fn a() {}");
    assert_eq!(on(&attr, &item).unwrap_err().kind, ErrorKind::MalformedState);
}

#[test]
fn unknown_trigger() {
    let toks = lex("app, [#[on_start(S::X)] a]");
    let e = add_systems(&toks).unwrap_err();
    assert_eq!(e.kind, ErrorKind::UnknownTrigger);
    assert_eq!(ident(&toks, e.at), "on_start");
}

#[test]
fn unterminated_generics() {
    let toks = lex("app, [f::<u32, g]");
    assert_eq!(add_systems(&toks).unwrap_err().kind, ErrorKind::UnterminatedGenerics);
    let toks = lex("app, [f::<Vec<u32>]");
    assert_eq!(add_systems(&toks).unwrap_err().kind, ErrorKind::UnterminatedGenerics);
}

#[test]
fn malformed_directives() {
    for src in ["app", "[a, b]", "app, (a, b)", "app, [a] extra", "app, [a b]", "app, [a,, b]", "app, [f::<, A>]", "app, [#(on(S::X)) a]", ""] {
        let toks = lex(src);
        assert_eq!(add_systems(&toks).unwrap_err().kind, ErrorKind::MalformedDirective, "{}", src);
    }
}

#[test]
fn companion_of_plain_function() {
    let attr = lex("GameState::Menu");
    let item = lex("pub fn spawn(mut c: Commands) { c.spawn(); }");
    let plan = on_enter(&attr, &item).unwrap();
    assert_eq!(plan.routine, "_add_spawn");
    assert_eq!(plan.params, None);
    assert_eq!(plan.where_clause, None);
    let reg = &plan.registration;
    assert_eq!(reg.key.state_type, "GameState");
    assert_eq!(reg.key.variant, "Menu");
    assert_eq!(reg.key.kind, TriggerKind::Enter);
    assert_eq!(ident(&attr, reg.state.name), "GameState");
    assert_eq!(ident(&attr, reg.state.variant), "Menu");
    assert_eq!(ident(&item, reg.system.name), "spawn");
    assert!(reg.system.generics.is_empty());
}

#[test]
fn companion_of_generic_function() {
    let attr = lex("State::Test, .after(state_update)");
    let item = lex("fn state_exit<'a, R: Component, const N: usize>(mut c: Commands) -> u8 where R: Send { 0 }");
    let plan = on_exit(&attr, &item).unwrap();
    assert_eq!(plan.routine, "_add_state_exit");
    assert_eq!(text(&item, plan.params.unwrap()), "'a, R:Component, const N:usize");
    assert_eq!(text(&item, plan.where_clause.unwrap()), "R:Send");
    let args: Vec<String> =
        plan.registration.system.generics.iter().map(|r| text(&item, *r)).collect();
    assert_eq!(args, vec!["R", "N"]);
    assert_eq!(text(&attr, plan.registration.state.extra.unwrap()), ".after(state_update)");
}

#[test]
fn each_attribute_sets_its_kind() {
    let attr = lex("S::X");
    let item = lex("fn f() {}");
    assert_eq!(on(&attr, &item).unwrap().registration.key.kind, TriggerKind::Update);
    assert_eq!(on_update(&attr, &item).unwrap().registration.key.kind, TriggerKind::Update);
    assert_eq!(on_enter(&attr, &item).unwrap().registration.key.kind, TriggerKind::Enter);
    assert_eq!(on_exit(&attr, &item).unwrap().registration.key.kind, TriggerKind::Exit);
    assert_eq!(on_pause(&attr, &item).unwrap().registration.key.kind, TriggerKind::Pause);
    assert_eq!(on_resume(&attr, &item).unwrap().registration.key.kind, TriggerKind::Resume);
}

#[test]
fn attribute_on_a_non_function() {
    let attr = lex("S::X");
    let item = lex("struct Foo;");
    assert_eq!(on(&attr, &item).unwrap_err().kind, ErrorKind::MalformedDirective);
    let item = lex("fn f()");
    assert_eq!(on(&attr, &item).unwrap_err().kind, ErrorKind::MalformedDirective);
}

#[test]
fn batch_resolves_through_companions() {
    let batch = lex("app, [A, #[on(S::X)] B, C::<u32>]");
    let plan = add_systems(&batch).unwrap();
    let a_item = lex("fn A() {}");
    let a_def = on(&lex("S::X"), &a_item).unwrap();
    let c_item = lex("fn C<T: Send>() {}");
    let c_def = on_enter(&lex("S::Y"), &c_item).unwrap();
    let mut groups: Registry<String> = Registry::new();
    for step in plan.steps {
        match step {
            Step::Companion { routine, system } => {
                let (def, item) = if routine == a_def.routine { (&a_def, &a_item) } else { (&c_def, &c_item) };
                assert_eq!(def.routine, routine);
                let mut name = ident(item, def.registration.system.name);
                let args: Vec<String> = system.generics.iter().map(|r| text(&batch, *r)).collect();
                if !args.is_empty() {
                    name = format!("{}::<{}>", name, args.join(","));
                }
                groups.add(def.registration.key.clone(), name);
            }
            Step::Register { registration } => {
                groups.add(registration.key, ident(&batch, registration.system.name));
            }
        }
    }
    assert_eq!(groups.len(), 2);
    assert_eq!(groups.key(0).variant, "X");
    assert_eq!(groups.key(0).kind, TriggerKind::Update);
    assert_eq!(groups.members(0), &vec!["A".to_string(), "B".to_string()]);
    assert_eq!(groups.key(1).variant, "Y");
    assert_eq!(groups.key(1).kind, TriggerKind::Enter);
    assert_eq!(groups.members(1), &vec!["C::<u32>".to_string()]);
}
