use gatt_compiler::hooks::{
    find_name, hooks_of_text, parse_hooks, read_hook_value, HookError, HookErrorKind, HookKind,
};
use gatt_compiler::tokens::{lex, Token};

fn names() -> Vec<String> {
    vec!["app_on_init".to_string(), "app_on_sleep".to_string(), "app_on_wake".to_string()]
}

#[test]
fn each_name_gets_its_slot() {
    let slots =
        hooks_of_text("app_on_wake: wake, app_on_init: crate::init,", &names(), HookKind::Path)
            .unwrap();
    assert_eq!(slots, vec![Some("crate :: init".to_string()), None, Some("wake".to_string())]);
    assert_eq!(hooks_of_text("", &names(), HookKind::Path), Ok(vec![None, None, None]));
    assert_eq!(hooks_of_text("", &vec![], HookKind::Path), Ok(vec![]));
}

#[test]
fn a_name_given_twice_keeps_its_last_value() {
    let slots = hooks_of_text("app_on_init: a, app_on_init: b", &names(), HookKind::Path).unwrap();
    assert_eq!(slots, vec![Some("b".to_string()), None, None]);
}

#[test]
fn literals_are_kept_as_written() {
    let slots = hooks_of_text(
        "app_on_init: \"Dialog\\n\", app_on_sleep: 0x10",
        &names(),
        HookKind::Literal,
    )
    .unwrap();
    assert_eq!(
        slots,
        vec![Some("\"Dialog\\n\"".to_string()), Some("0x10".to_string()), None]
    );
}

#[test]
fn errors_of_a_list_of_hooks() {
    let cases = [
        ("app_on_exit: f", HookKind::Path, 0, HookErrorKind::UnknownField),
        ("app_on_init: 3", HookKind::Path, 2, HookErrorKind::UnexpectedValue),
        ("app_on_init: a b", HookKind::Path, 2, HookErrorKind::UnexpectedValue),
        ("app_on_init: ", HookKind::Path, 2, HookErrorKind::UnexpectedValue),
        ("app_on_init: f", HookKind::Literal, 2, HookErrorKind::UnexpectedValue),
        ("app_on_init: 1 2", HookKind::Literal, 2, HookErrorKind::UnexpectedValue),
        ("app_on_init f", HookKind::Path, 1, HookErrorKind::ExpectedColon),
        ("app_on_init", HookKind::Path, 1, HookErrorKind::ExpectedColon),
        ("0: f", HookKind::Path, 0, HookErrorKind::ExpectedIdent),
        ("app_on_init: f,, ", HookKind::Path, 4, HookErrorKind::ExpectedIdent),
        ("app_on_init: (", HookKind::Path, 0, HookErrorKind::NotTokens),
    ];
    for (text, kind, span, error) in cases {
        assert_eq!(
            hooks_of_text(text, &names(), kind),
            Err(HookError { span, kind: error }),
            "{}",
            text
        );
    }
}

#[test]
fn names_and_values_are_found_in_tokens() {
    assert_eq!(find_name(&names(), "app_on_sleep"), Some(1));
    assert_eq!(find_name(&names(), "app_on"), None);
    let twice = vec!["a".to_string(), "b".to_string(), "a".to_string()];
    assert_eq!(find_name(&twice, "a"), Some(0));
    let tokens: Vec<Token> = lex("x: a::b, y: 7").unwrap();
    assert_eq!(read_hook_value(&tokens, HookKind::Path, 2, 6), Some("a :: b".to_string()));
    assert_eq!(read_hook_value(&tokens, HookKind::Literal, 2, 6), None);
    assert_eq!(read_hook_value(&tokens, HookKind::Literal, 9, 10), Some("7".to_string()));
    assert_eq!(read_hook_value(&tokens, HookKind::Path, 9, 10), None);
    assert_eq!(
        parse_hooks(&tokens, &vec!["y".to_string(), "x".to_string()], HookKind::Path),
        Err(HookError { span: 9, kind: HookErrorKind::UnexpectedValue })
    );
}
