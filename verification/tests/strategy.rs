use zcode_store::editor::EditorTabState;
use zcode_store::kernel::{Command, LanguageId};
use zcode_store::store::intel::completion_strategy::{
    completion_strategy_for, default_context_allows_completion, default_prefix_bounds,
    default_should_close_on_command, default_signature_help_should_keep_open, default_triggered_by_insert,
    include_context_bounds, include_line_context, is_hash_at_line_start, preceded_by_dash,
    preceded_by_dash_for_insert, strategy_for_tab, CompletionStrategy,
};

fn tab_at(content: &str, cursor: usize) -> EditorTabState {
    let mut tab = EditorTabState::new(Some("main.c".to_string()), Some(LanguageId::C), content);
    tab.buffer.set_cursor_char(cursor);
    tab
}

fn tab_end(content: &str) -> EditorTabState {
    tab_at(content, content.chars().count())
}

#[test]
fn c_family_languages_use_the_cpp_strategy() {
    assert_eq!(completion_strategy_for(Some(LanguageId::C)), CompletionStrategy::Cpp);
    assert_eq!(completion_strategy_for(Some(LanguageId::Cpp)), CompletionStrategy::Cpp);
    assert_eq!(completion_strategy_for(Some(LanguageId::Rust)), CompletionStrategy::Default);
    assert_eq!(completion_strategy_for(Some(LanguageId::Python)), CompletionStrategy::Default);
    assert_eq!(completion_strategy_for(None), CompletionStrategy::Default);
    assert_eq!(strategy_for_tab(&tab_end("int")), CompletionStrategy::Cpp);
    let rust = EditorTabState::new(Some("a.rs".to_string()), Some(LanguageId::Rust), "fn");
    assert_eq!(strategy_for_tab(&rust), CompletionStrategy::Default);
}

#[test]
fn include_context_finds_the_unterminated_path() {
    let ctx = include_line_context(&tab_end("#include <vec"));
    assert!(ctx.is_directive);
    assert_eq!(ctx.bounds, Some((10, 13)));

    let ctx = include_line_context(&tab_end("  #  include \"foo/ba"));
    assert!(ctx.is_directive);
    assert_eq!(ctx.bounds, Some((14, 20)));

    let ctx = include_line_context(&tab_end("#include <vector>"));
    assert!(ctx.is_directive);
    assert_eq!(ctx.bounds, None);

    let ctx = include_line_context(&tab_end("#include"));
    assert!(ctx.is_directive);
    assert_eq!(ctx.bounds, None);

    let ctx = include_line_context(&tab_end("#define X"));
    assert!(!ctx.is_directive);
    assert_eq!(ctx.bounds, None);

    let ctx = include_line_context(&tab_end("int x;\n#include <st"));
    assert!(ctx.is_directive);
    assert_eq!(ctx.bounds, Some((17, 19)));
    assert_eq!(include_context_bounds(&tab_end("int x;\n#include <st")), Some((17, 19)));
    assert_eq!(include_context_bounds(&tab_end("int x;")), None);
}

#[test]
fn hash_and_dash_checks_look_right_before_the_cursor() {
    assert!(is_hash_at_line_start(&tab_end("#")));
    assert!(is_hash_at_line_start(&tab_end("  \t#")));
    assert!(is_hash_at_line_start(&tab_end("int x;\n  #")));
    assert!(!is_hash_at_line_start(&tab_end("a #")));
    assert!(!is_hash_at_line_start(&tab_end("")));

    assert!(preceded_by_dash(&tab_end("p->")));
    assert!(!preceded_by_dash(&tab_end(">")));
    assert!(!preceded_by_dash(&tab_end("p=>")));
    assert!(preceded_by_dash_for_insert(&tab_end("p-")));
    assert!(!preceded_by_dash_for_insert(&tab_end("p")));
    assert!(!preceded_by_dash_for_insert(&tab_end("")));
}

#[test]
fn default_prefix_is_the_ascii_word_before_the_cursor() {
    assert_eq!(default_prefix_bounds(&tab_end("let foo_1")), (4, 9));
    assert_eq!(default_prefix_bounds(&tab_end("a.")), (2, 2));
    assert_eq!(default_prefix_bounds(&tab_at("abc def", 2)), (0, 2));
}

#[test]
fn default_context_allows_identifiers_members_and_paths() {
    assert!(default_context_allows_completion(&tab_end("foo")));
    assert!(default_context_allows_completion(&tab_end("foo.")));
    assert!(default_context_allows_completion(&tab_end("std::")));
    assert!(!default_context_allows_completion(&tab_end("1.")));
    assert!(!default_context_allows_completion(&tab_end("x = ")));
    assert!(!default_context_allows_completion(&tab_end("")));
    let mut tab = tab_end("\"foo");
    tab.string_or_comment = vec![(0, 5)];
    assert!(!default_context_allows_completion(&tab));
}

#[test]
fn default_triggers_without_server_triggers_are_dot_and_path() {
    assert!(default_triggered_by_insert(&tab_end("a."), '.', &[]));
    assert!(default_triggered_by_insert(&tab_end("a::"), ':', &[]));
    assert!(!default_triggered_by_insert(&tab_end("a:"), ':', &[]));
    assert!(!default_triggered_by_insert(&tab_end("a("), '(', &[]));
    assert!(default_triggered_by_insert(&tab_end("a("), '(', &['(']));
    assert!(!default_triggered_by_insert(&tab_end("a."), '.', &['(']));
    assert!(!default_triggered_by_insert(&tab_end("a::"), ':', &['.']));
    assert!(default_triggered_by_insert(&tab_end("a::"), ':', &[':']));
}

#[test]
fn signature_help_stays_open_inside_unclosed_parens() {
    assert!(default_signature_help_should_keep_open(&tab_end("f(a, ")));
    assert!(default_signature_help_should_keep_open(&tab_end("f(g(x), ")));
    assert!(!default_signature_help_should_keep_open(&tab_end("f(a)")));
    assert!(!default_signature_help_should_keep_open(&tab_end("x")));
    let mut tab = tab_end("f(\"(\"");
    tab.string_or_comment = vec![(2, 5)];
    assert!(default_signature_help_should_keep_open(&tab));
    let mut tab = tab_end("f() \"(\"");
    tab.string_or_comment = vec![(4, 7)];
    assert!(!default_signature_help_should_keep_open(&tab));
}

#[test]
fn default_command_rules_keep_the_popup_for_edits_and_lsp_refreshes() {
    let d = CompletionStrategy::Default;
    assert!(!default_should_close_on_command(&d, &Command::LspCompletion));
    assert!(!default_should_close_on_command(&d, &Command::LspSemanticTokens));
    assert!(!default_should_close_on_command(&d, &Command::DeleteBackward));
    assert!(!default_should_close_on_command(&d, &Command::InsertChar('a')));
    assert!(default_should_close_on_command(&d, &Command::InsertChar(' ')));
    assert!(default_should_close_on_command(&d, &Command::InsertChar('>')));
    assert!(!default_should_close_on_command(&CompletionStrategy::Cpp, &Command::InsertChar('>')));
    assert!(default_should_close_on_command(&d, &Command::CursorLeft));
}

#[test]
fn cpp_strategy_handles_includes_arrows_and_hashes() {
    let cpp = CompletionStrategy::Cpp;
    let def = CompletionStrategy::Default;

    assert!(cpp.debounce_triggered_by_char('#'));
    assert!(cpp.debounce_triggered_by_char('/'));
    assert!(!def.debounce_triggered_by_char('#'));
    assert!(def.debounce_triggered_by_char(':'));
    assert!(def.debounce_triggered_by_char('é'));
    assert!(!def.debounce_triggered_by_char(' '));

    assert!(cpp.keeps_open_on_char('<'));
    assert!(!def.keeps_open_on_char('<'));
    assert!(def.keeps_open_on_char('_'));

    assert!(cpp.context_allows_completion(&tab_end("#include <st")));
    assert!(!cpp.context_allows_completion(&tab_end("#include <stdio.h> ")));
    assert!(cpp.context_allows_completion(&tab_end("#")));
    assert!(cpp.context_allows_completion(&tab_end("foo")));

    assert_eq!(cpp.prefix_bounds(&tab_end("#include <sys/ty")), (10, 16));
    assert_eq!(cpp.prefix_bounds(&tab_end("int ab")), (4, 6));

    assert!(cpp.triggered_by_insert(&tab_end("#"), '#', &[]));
    assert!(cpp.triggered_by_insert(&tab_end("p->"), '>', &[]));
    assert!(cpp.triggered_by_insert(&tab_end("#include <"), '<', &[]));
    assert!(cpp.triggered_by_insert(&tab_end("#include <sys/"), '/', &[]));
    assert!(!cpp.triggered_by_insert(&tab_end("a <"), '<', &[]));
    assert!(!def.triggered_by_insert(&tab_end("#"), '#', &[]));

    let t = tab_end("#include <sys");
    assert!(!cpp.should_close_on_command(&Command::InsertChar('/'), Some(&t)));
    assert!(cpp.should_close_on_command(&Command::InsertChar('/'), None));
    assert!(!cpp.should_close_on_command(&Command::InsertChar('>'), Some(&tab_end("p-"))));
    assert!(cpp.should_close_on_command(&Command::InsertChar('>'), Some(&tab_end("p"))));
    assert!(def.should_close_on_command(&Command::InsertChar('/'), Some(&t)));

    assert!(cpp.completion_should_keep_open(&tab_end("#include <")));
    assert!(cpp.completion_should_keep_open(&tab_end("#include <sys/")));
    assert!(!cpp.completion_should_keep_open(&tab_end("#include <vector> ")));
    assert!(cpp.completion_should_keep_open(&tab_end("p->")));
    assert!(!def.completion_should_keep_open(&tab_end("p->")));
    assert!(def.completion_should_keep_open(&tab_end("a.")));
    assert!(def.completion_should_keep_open(&tab_end("a::")));
    assert!(def.completion_should_keep_open(&tab_end("ab")));
    assert!(!def.completion_should_keep_open(&tab_end("a ")));
}

#[test]
fn signature_help_rules_use_server_triggers_when_given() {
    let def = CompletionStrategy::Default;
    assert!(def.signature_help_triggered('(', &[]));
    assert!(def.signature_help_triggered(',', &[]));
    assert!(!def.signature_help_triggered('<', &[]));
    assert!(def.signature_help_triggered('<', &['<']));
    assert!(!def.signature_help_triggered('(', &['<']));
    assert!(def.signature_help_closed_by(')'));
    assert!(!def.signature_help_closed_by('('));
    assert!(def.signature_help_should_keep_open(&tab_end("f(")));
}
