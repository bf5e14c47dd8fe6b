use fast_voxel_preprocessor::{preprocess_dir, PreprocessorErrorType, ShaderPreprocessor};

fn session(fragments: &[(&str, &str)]) -> ShaderPreprocessor {
    ShaderPreprocessor::new(
        fragments
            .iter()
            .map(|(n, t)| (n.to_string(), t.to_string()))
            .collect(),
    )
}

fn compose(fragments: &[(&str, &str)]) -> Result<String, PreprocessorErrorType> {
    session(fragments).preprocess()
}

/// The directive line that splices fragment `target` in.
fn splice_line(target: &str) -> String {
    format!("//! {}{} \"{}\"", "inc", "lude", target)
}

#[test]
fn plain_fragment_is_unchanged() {
    let text = "fn main() {\n    let x = 1;\n}\n// a comment\n\n  // another";
    assert_eq!(compose(&[("main", text)]).unwrap(), text);
}

#[test]
fn empty_fragment_composes_to_empty() {
    assert_eq!(compose(&[("main", "")]).unwrap(), "");
}

#[test]
fn line_endings_are_normalised() {
    assert_eq!(compose(&[("main", "a\r\nb\n")]).unwrap(), "a\nb");
}

#[test]
fn define_then_ifdef_keeps_block() {
    let text = "//! define X \"v\"\n//! ifdef X\nbody\n//! endif";
    assert_eq!(compose(&[("main", text)]).unwrap(), text);
}

#[test]
fn define_in_spliced_fragment_is_seen_by_ifdef() {
    let main = format!("{}\n//! ifdef X\nbody\n//! endif", splice_line("defs"));
    let out = compose(&[("main", main.as_str()), ("defs", "//! define X \"1\"")]).unwrap();
    let expected = format!("//! define X \"1\"\n{}", main);
    assert_eq!(out, expected);
}

#[test]
fn undef_before_ifdef_blanks_block() {
    let text = "//! define X \"v\"\n//! undef X\n//! ifdef X\nbody\n//! endif\ntail";
    let expected = ["//! define X \"v\"", "//! undef X", "", "", "", "tail"].join("\n");
    assert_eq!(compose(&[("main", text)]).unwrap(), expected);
}

#[test]
fn ifdef_of_undefined_name_blanks_block() {
    let text = "a\n//! ifdef X\nb\n//! endif\nc";
    assert_eq!(compose(&[("main", text)]).unwrap(), "a\n\n\n\nc");
}

#[test]
fn ifndef_of_undefined_name_keeps_block() {
    let text = "//! ifndef X\nbody\n//! endif\nend";
    assert_eq!(compose(&[("main", text)]).unwrap(), text);
}

#[test]
fn ifndef_of_defined_name_blanks_block() {
    let text = "//! define X \"\"\n//! ifndef X\nbody\n//! endif\nend";
    let expected = ["//! define X \"\"", "", "", "", "end"].join("\n");
    assert_eq!(compose(&[("main", text)]).unwrap(), expected);
}

#[test]
fn nested_blocks_both_failing_blank_both_ranges() {
    let text = "//! define B \"\"\n//! ifdef A\na\n//! ifndef B\nb\n//! endif\nc\n//! endif\nd";
    let expected = ["//! define B \"\"", "", "", "", "", "", "", "", "d"].join("\n");
    assert_eq!(compose(&[("main", text)]).unwrap(), expected);
}

#[test]
fn nested_inner_block_decided_alone() {
    let text = "//! define A \"\"\n//! define B \"\"\n//! ifdef A\na\n//! ifndef B\nb\n//! endif\nc\n//! endif\nd";
    let expected = [
        "//! define A \"\"",
        "//! define B \"\"",
        "//! ifdef A",
        "a",
        "",
        "",
        "",
        "c",
        "//! endif",
        "d",
    ]
    .join("\n");
    assert_eq!(compose(&[("main", text)]).unwrap(), expected);
}

#[test]
fn nested_blocks_both_holding_keep_everything() {
    let text = "//! define A \"\"\n//! ifdef A\na\n//! ifndef B\nb\n//! endif\nc\n//! endif\nd";
    assert_eq!(compose(&[("main", text)]).unwrap(), text);
}

#[test]
fn nested_outer_failing_blanks_inner_kept_block() {
    let text = "//! ifdef A\na\n//! ifndef B\nb\n//! endif\nc\n//! endif\nd";
    let expected = ["", "", "", "", "", "", "", "d"].join("\n");
    assert_eq!(compose(&[("main", text)]).unwrap(), expected);
}

#[test]
fn transitive_splices_compose_in_order() {
    let a = format!("{}\na", splice_line("b"));
    let b = format!("{}\nb", splice_line("c"));
    let out = compose(&[("main", a.as_str()), ("b", b.as_str()), ("c", "c1\nc2")]).unwrap();
    let expected = format!("c1\nc2\n{}\nb\n{}\na", splice_line("c"), splice_line("b"));
    assert_eq!(out, expected);
}

#[test]
fn spliced_fragment_directives_resolved_first() {
    let child = "//! define N \"7\"\n//! insert \"x = N;\"";
    let main = format!("start\n{}\nend", splice_line("child"));
    let out = compose(&[("main", main.as_str()), ("child", child)]).unwrap();
    let expected = format!("start\n//! define N \"7\"\nx = 7;\n{}\nend", splice_line("child"));
    assert_eq!(out, expected);
}

#[test]
fn missing_entry_fragment() {
    match compose(&[("other", "x")]) {
        Err(PreprocessorErrorType::ShaderNotFound(n)) => assert_eq!(n, "main"),
        other => panic!("unexpected {:?}", other),
    }
}

#[test]
fn missing_spliced_fragment() {
    let main = format!("x\n{}", splice_line("nope"));
    match compose(&[("main", main.as_str())]) {
        Err(PreprocessorErrorType::IncludeShaderNotFound(l, f, t)) => {
            assert_eq!(l, 1);
            assert_eq!(f, "main");
            assert_eq!(t, "nope");
        }
        other => panic!("unexpected {:?}", other),
    }
}

#[test]
fn unbalanced_endif() {
    match compose(&[("main", "a\n//! endif")]) {
        Err(PreprocessorErrorType::IfTokenNotFound(l, f)) => {
            assert_eq!(l, 1);
            assert_eq!(f, "main");
        }
        other => panic!("unexpected {:?}", other),
    }
}

#[test]
fn greeting_example() {
    let main = format!(
        "{}\nfn f(){{\n//! ifdef G\n//! insert \"println(G);\"\n//! endif\n}}",
        splice_line("greet")
    );
    let out = compose(&[("main", main.as_str()), ("greet", "//! define G \"hi\"")]).unwrap();
    let expected = format!(
        "//! define G \"hi\"\n{}\nfn f(){{\n//! ifdef G\nprintln(hi);\n//! endif\n}}",
        splice_line("greet")
    );
    assert_eq!(out, expected);
}

#[test]
fn insert_substitutes_substrings() {
    let text = "//! define AB \"x\"\n//! insert \"ABC AB\"";
    assert_eq!(compose(&[("main", text)]).unwrap(), "//! define AB \"x\"\nxC x");
}

#[test]
fn insert_with_empty_name_defined() {
    let text = "//! define  \"v\"\n//! insert \"ab\"";
    assert_eq!(compose(&[("main", text)]).unwrap(), "//! define  \"v\"\nvavbv");
}

#[test]
fn redefinition_takes_last_value() {
    let text = "//! define X \"1\"\n//! define X \"2\"\n//! insert \"X\"";
    assert_eq!(
        compose(&[("main", text)]).unwrap(),
        "//! define X \"1\"\n//! define X \"2\"\n2"
    );
}

#[test]
fn define_without_value_at_end() {
    let main = format!("{}\n//! ifdef FLAG\nkept\n//! endif", splice_line("flags"));
    let out = compose(&[("main", main.as_str()), ("flags", "//! define FLAG")]).unwrap();
    assert_eq!(out, format!("//! define FLAG\n{}", main));
}

#[test]
fn define_without_value_before_directive_is_invalid() {
    match compose(&[("main", "//! define X\n//! endif")]) {
        Err(e) => assert_eq!(
            e.to_string(),
            "Error in main:0\n   Invalid token: exepted StrLit(0, \"\") recived DirectiveToken(1, EndIf)"
        ),
        other => panic!("unexpected {:?}", other),
    }
}

#[test]
fn word_where_directive_expected_is_invalid() {
    match compose(&[("main", "//! X")]) {
        Err(PreprocessorErrorType::InvalidToken(l, f, _, found)) => {
            assert_eq!(l, 0);
            assert_eq!(f, "main");
            assert_eq!(
                found,
                fast_voxel_preprocessor::ShaderToken::NameLit(0, "X".to_string())
            );
        }
        other => panic!("unexpected {:?}", other),
    }
}

#[test]
fn wrong_argument_kind_is_invalid() {
    match compose(&[("main", "//! ifdef \"X\"")]) {
        Err(e) => assert_eq!(
            e.to_string(),
            "Error in main:0\n   Invalid token: exepted NameLit(0, \"\") recived StrLit(0, \"X\")"
        ),
        other => panic!("unexpected {:?}", other),
    }
}

#[test]
fn missing_argument_is_invalid() {
    match compose(&[("main", "a\n//! undef")]) {
        Err(e) => {
            assert!(matches!(
                e,
                PreprocessorErrorType::InvalidToken(
                    1,
                    _,
                    fast_voxel_preprocessor::ShaderToken::NameLit(0, _),
                    fast_voxel_preprocessor::ShaderToken::DirectiveToken(
                        1,
                        fast_voxel_preprocessor::Directive::UnDefine
                    )
                )
            ));
            assert_eq!(
                e.to_string(),
                "Error in main:1\n   Invalid token: exepted NameLit(0, \"\") recived DirectiveToken(1, UnDefine)"
            );
        }
        other => panic!("unexpected {:?}", other),
    }
}

#[test]
fn missing_splice_target_is_invalid() {
    let line = format!("//! {}{}", "inc", "lude");
    match compose(&[("main", line.as_str())]) {
        Err(e) => assert_eq!(
            e.to_string(),
            "Error in main:0\n   Invalid token: exepted StrLit(0, \"\") recived DirectiveToken(0, Include)"
        ),
        other => panic!("unexpected {:?}", other),
    }
}

#[test]
fn self_splicing_fragment_stops_at_given_depth() {
    let main = splice_line("main");
    match session(&[("main", main.as_str())]).preprocess_with_depth(8) {
        Err(PreprocessorErrorType::IncludeDepthExceeded(l, f, t)) => {
            assert_eq!(l, 0);
            assert_eq!(f, "main");
            assert_eq!(t, "main");
        }
        other => panic!("unexpected {:?}", other),
    }
}

#[test]
fn nesting_within_given_depth_succeeds() {
    let a = splice_line("b");
    let b = splice_line("c");
    let mut s = session(&[("main", a.as_str()), ("b", b.as_str()), ("c", "c")]);
    assert_eq!(
        s.preprocess_with_depth(2).unwrap(),
        format!("c\n{}\n{}", b, a)
    );
    match s.preprocess_with_depth(1) {
        Err(PreprocessorErrorType::IncludeDepthExceeded(0, f, t)) => {
            assert_eq!(f, "b");
            assert_eq!(t, "c");
        }
        other => panic!("unexpected {:?}", other),
    }
}

#[test]
fn session_state_persists_between_calls() {
    let text = "//! ifdef X\na\n//! endif\n//! define X \"\"";
    let mut s = session(&[("main", text)]);
    assert_eq!(s.preprocess().unwrap(), "\n\n\n//! define X \"\"");
    assert_eq!(s.preprocess().unwrap(), text);
}

#[test]
fn caller_fragments_shadow_standard_ones() {
    let mut s = ShaderPreprocessor::with_standard(
        vec![("main".to_string(), "std".to_string()), ("lib".to_string(), "L".to_string())],
        vec![("main".to_string(), format!("own\n{}", splice_line("lib")))],
    );
    assert_eq!(s.preprocess().unwrap(), format!("own\nL\n{}", splice_line("lib")));
}

#[test]
fn directory_listing_is_composed() {
    let files = vec![
        ("main.wgsl".to_string(), Some(format!("{}\nx", splice_line("lib")))),
        ("lib.inc.wgsl".to_string(), Some("y".to_string())),
        ("broken.wgsl".to_string(), None),
    ];
    assert_eq!(
        preprocess_dir(files).unwrap(),
        format!("y\n{}\nx", splice_line("lib"))
    );
}

#[test]
fn unreadable_file_is_empty() {
    let files = vec![
        ("main.wgsl".to_string(), Some(splice_line("gone"))),
        ("gone.wgsl".to_string(), None),
    ];
    assert_eq!(preprocess_dir(files).unwrap(), splice_line("gone"));
}

#[test]
fn missing_entry_in_directory() {
    let files = vec![("lib.wgsl".to_string(), Some("y".to_string()))];
    assert_eq!(
        preprocess_dir(files).unwrap_err().to_string(),
        "Shader main not found!"
    );
}
