use fast_voxel_preprocessor::{
    fragment_name, tokenize, Directive, PreprocessorErrorType, ShaderToken, SymbolTable,
};

#[test]
fn tokenizes_directive_lines_only() {
    let toks = tokenize("fn a() {}\n  //! define NAME \"a b  c\"\n//! endif // note");
    assert_eq!(
        toks,
        vec![
            ShaderToken::DirectiveToken(1, Directive::Define),
            ShaderToken::NameLit(1, "NAME".to_string()),
            ShaderToken::StrLit(1, "a b  c".to_string()),
            ShaderToken::DirectiveToken(2, Directive::EndIf),
            ShaderToken::Comment(2),
            ShaderToken::NameLit(2, "note".to_string()),
        ]
    );
}

#[test]
fn tokenizes_every_keyword() {
    let text = format!(
        "//! {}{} undef insert ifdef ifndef endif define",
        "inc", "lude"
    );
    let kinds: Vec<ShaderToken> = tokenize(&text);
    assert_eq!(
        kinds,
        vec![
            ShaderToken::DirectiveToken(0, Directive::Include),
            ShaderToken::DirectiveToken(0, Directive::UnDefine),
            ShaderToken::DirectiveToken(0, Directive::Insert),
            ShaderToken::DirectiveToken(0, Directive::IfDefine),
            ShaderToken::DirectiveToken(0, Directive::IfNotDefine),
            ShaderToken::DirectiveToken(0, Directive::EndIf),
            ShaderToken::DirectiveToken(0, Directive::Define),
        ]
    );
}

#[test]
fn text_without_directives_has_no_tokens() {
    assert!(tokenize("a\n// b\n /! c").is_empty());
    assert!(tokenize("").is_empty());
}

#[test]
fn lone_quote_is_empty_string() {
    assert_eq!(
        tokenize("//! \"")[0],
        ShaderToken::StrLit(0, String::new())
    );
}

#[test]
fn quotes_inside_words_are_dropped_from_literals() {
    assert_eq!(
        tokenize("//! \"a\"b\"")[0],
        ShaderToken::StrLit(0, "ab".to_string())
    );
}

#[test]
fn unterminated_literal_yields_nothing() {
    assert!(tokenize("//! \"abc def").is_empty());
}

#[test]
fn double_space_gives_empty_word() {
    assert_eq!(
        tokenize("//!  x"),
        vec![
            ShaderToken::NameLit(0, String::new()),
            ShaderToken::NameLit(0, "x".to_string()),
        ]
    );
}

#[test]
fn token_text() {
    assert_eq!(
        ShaderToken::NameLit(12, "a\"b\\".to_string()).to_text(),
        "NameLit(12, \"a\\\"b\\\\\")"
    );
    assert_eq!(
        ShaderToken::DirectiveToken(0, Directive::IfNotDefine).to_text(),
        "DirectiveToken(0, IfNotDefine)"
    );
    assert_eq!(ShaderToken::Comment(105).to_text(), "Comment(105)");
    assert_eq!(
        ShaderToken::StrLit(1, "a\0b\u{1}c\u{1f}\u{7f}\té".to_string()).to_text(),
        format!("StrLit(1, {:?})", "a\0b\u{1}c\u{1f}\u{7f}\té")
    );
}

#[test]
fn error_messages() {
    assert_eq!(
        PreprocessorErrorType::IfTokenNotFound(3, "main".to_string()).to_string(),
        "Error in main:3\n   If token not found!"
    );
    assert_eq!(
        PreprocessorErrorType::IncludeShaderNotFound(10, "main".to_string(), "lib".to_string())
            .to_string(),
        "Error in main:10\n   Shader lib not found!"
    );
    assert_eq!(
        PreprocessorErrorType::InvalidToken(
            0,
            "main".to_string(),
            ShaderToken::StrLit(0, String::new()),
            ShaderToken::NameLit(0, "g".to_string())
        )
        .to_string(),
        "Error in main:0\n   Invalid token: exepted StrLit(0, \"\") recived NameLit(0, \"g\")"
    );
    assert_eq!(
        PreprocessorErrorType::ShaderNotFound("x".to_string()).to_string(),
        "Shader x not found!"
    );
    assert_eq!(
        PreprocessorErrorType::IncludeDepthExceeded(0, "a".to_string(), "b".to_string())
            .to_string(),
        "Error in a:0\n   Shader b is nested too deep!"
    );
}

#[test]
fn fragment_names_drop_extensions() {
    assert_eq!(fragment_name("main.wgsl"), "main");
    assert_eq!(fragment_name("lib.inc.wgsl"), "lib");
    assert_eq!(fragment_name("plain"), "plain");
    assert_eq!(fragment_name(".hidden"), "");
}

#[test]
fn symbol_table_operations() {
    let mut t = SymbolTable::new();
    assert!(!t.is_defined(&"A".to_string()));
    t.define("A".to_string(), "1".to_string());
    t.define("B".to_string(), String::new());
    assert!(t.is_defined(&"A".to_string()));
    assert!(t.is_defined(&"B".to_string()));
    let code: Vec<char> = "A+B+AA".chars().collect();
    assert_eq!(t.substitute(&code).iter().collect::<String>(), "1++11");
    t.define("A".to_string(), "2".to_string());
    assert_eq!(t.substitute(&code).iter().collect::<String>(), "2++22");
    t.undefine(&"A".to_string());
    t.undefine(&"missing".to_string());
    assert!(!t.is_defined(&"A".to_string()));
    assert_eq!(t.substitute(&code).iter().collect::<String>(), "A++AA");
}
