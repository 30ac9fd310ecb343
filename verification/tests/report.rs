use error_report::{AsRefError, CleanedErrorText, CleanedErrors, ErrorNode, Report, Reportable};

fn chain_of(texts: &[&str]) -> ErrorNode {
    let mut node = ErrorNode::new(String::from(texts[texts.len() - 1]));
    for t in texts[..texts.len() - 1].iter().rev() {
        node = ErrorNode::with_cause(String::from(*t), node);
    }
    node
}

#[test]
fn test_conversion() {
    let anyhow_caller = || -> Result<(), Report<ErrorNode>> {
        let inner: Result<(), ErrorNode> = Err(ErrorNode::new(String::from("oh no!")));
        match inner {
            Err(e) => Err(ErrorNode::with_cause(String::from("fn failed"), e).report()),
            Ok(()) => Ok(()),
        }
    };

    let custom_fn = || -> Result<(), ErrorNode> { Err(ErrorNode::new(String::from("custom error"))) };

    let custom_caller = || -> Result<(), Report<ErrorNode>> {
        match custom_fn() {
            Err(e) => Err(Report::new(e)),
            Ok(()) => Ok(()),
        }
    };

    let err = anyhow_caller().expect_err("function did not return error");

    let normal_string = err.display_string(false);
    let alt_string = err.display_string(true);
    let debug_string = err.debug_string();

    assert_eq!(normal_string, "fn failed: oh no!");
    assert_eq!(alt_string, "fn failed\n\nCaused by:\n    1. oh no!\n");
    assert_eq!(debug_string, "fn failed\n\nCaused by:\n    1. oh no!\n");

    let err = custom_caller().expect_err("function did not return error");

    let normal_string = err.display_string(false);
    let alt_string = err.display_string(true);
    let debug_string = err.debug_string();

    assert_eq!(normal_string, "custom error");
    assert_eq!(alt_string, "custom error");
    assert_eq!(debug_string, "custom error");

    let err = custom_fn().expect_err("function did not return error");
    let report: Report<&ErrorNode> = Report::from(&err);
    let normal_string = report.display_string(false);
    let alt_string = report.display_string(true);
    let debug_string = report.debug_string();

    assert_eq!(normal_string, "custom error");
    assert_eq!(alt_string, "custom error");
    assert_eq!(debug_string, "custom error");
    _ = err
}

#[test]
fn no_cause_single_entry() {
    let e = ErrorNode::new(String::from("alone"));
    let mut walk = CleanedErrorText::new(&e);
    let (_, text, cleaned) = walk.next().expect("one entry");
    assert_eq!(text, "alone");
    assert!(!cleaned);
    assert!(walk.next().is_none());
    assert!(walk.next().is_none());
}

#[test]
fn suffix_cleaning_strips_text_space_and_colon() {
    let e = chain_of(&["fn failed: oh no!", "oh no!"]);
    let mut walk = e.cleaned_errors();
    let (_, head, cleaned) = walk.next().expect("head entry");
    assert_eq!(head, "fn failed");
    assert!(cleaned);
    let (_, root, cleaned) = walk.next().expect("root entry");
    assert_eq!(root, "oh no!");
    assert!(!cleaned);
    assert!(walk.next().is_none());
}

#[test]
fn non_suffix_leaves_text_unchanged() {
    let e = chain_of(&["A", "B"]);
    let mut walk = e.cleaned_errors();
    let (_, head, cleaned) = walk.next().expect("head entry");
    assert_eq!(head, "A");
    assert!(!cleaned);
}

#[test]
fn cleaning_without_separator() {
    let e = chain_of(&["AB", "B"]);
    let mut walk = e.cleaned_errors();
    let (_, head, cleaned) = walk.next().expect("head entry");
    assert_eq!(head, "A");
    assert!(cleaned);
}

#[test]
fn cleaning_keeps_other_separators() {
    let e = chain_of(&["A - B", "B"]);
    let mut walk = e.cleaned_errors();
    let (_, head, cleaned) = walk.next().expect("head entry");
    assert_eq!(head, "A -");
    assert!(cleaned);
}

#[test]
fn cleaning_trims_all_whitespace_but_one_colon() {
    let e = chain_of(&["A:  \t B", "B"]);
    let mut walk = e.cleaned_errors();
    let (_, head, cleaned) = walk.next().expect("head entry");
    assert_eq!(head, "A");
    assert!(cleaned);

    let e = chain_of(&["A:: B", "B"]);
    let mut walk = e.cleaned_errors();
    let (_, head, _) = walk.next().expect("head entry");
    assert_eq!(head, "A:");
}

#[test]
fn chain_length_and_order() {
    let e = chain_of(&["A: B: C", "B: C", "C"]);
    let mut walk = e.cleaned_errors();
    let mut texts: Vec<String> = Vec::new();
    while let Some((_, t, _)) = walk.next() {
        texts.push(t);
    }
    assert_eq!(texts, vec!["A", "B", "C"]);
}

#[test]
fn three_level_chain_renders() {
    let e = chain_of(&["A: B: C", "B: C", "C"]);
    let r = Report::new(e);
    assert_eq!(r.format(false), "A: B: C");
    assert_eq!(r.format(true), "A\n\nCaused by:\n    1. B\n    2. C\n");
}

#[test]
fn rendering_is_idempotent() {
    let r = Report::new(chain_of(&["top: mid", "mid", "root"]));
    let first_inline = r.format(false);
    let second_inline = r.format(false);
    assert_eq!(first_inline, second_inline);
    let first_multi = r.format(true);
    let second_multi = r.format(true);
    assert_eq!(first_multi, second_multi);
}

#[test]
fn empty_cleaned_entry_is_filtered() {
    // The head repeats its cause exactly, so its cleaned text is empty.
    let e = chain_of(&["B", "B"]);
    let r = Report::new(e);
    assert_eq!(r.format(false), "B");
    assert_eq!(r.format(true), "B");
}

#[test]
fn empty_entry_in_the_middle_adds_no_separator_or_number() {
    // The middle entry cleans to empty; numbering skips it entirely.
    let e = chain_of(&["A: B", "B", "B"]);
    let r = Report::new(e);
    assert_eq!(r.format(false), "A: B");
    assert_eq!(r.format(true), "A\n\nCaused by:\n    1. B\n");
}

#[test]
fn empty_display_text_is_filtered() {
    let e = chain_of(&["", "x"]);
    let r = Report::new(e);
    assert_eq!(r.format(false), "x");
    assert_eq!(r.format(true), "x");
}

#[test]
fn numbering_reaches_two_digits() {
    let texts: Vec<String> = (1..=12).map(|i| format!("e{}", i)).collect();
    let refs: Vec<&str> = texts.iter().map(|s| s.as_str()).collect();
    let r = Report::new(chain_of(&refs));
    let rendered = r.format(true);
    assert!(rendered.starts_with("e1\n\nCaused by:\n    1. e2\n"));
    assert!(rendered.contains("\n    10. e11\n"));
    assert!(rendered.ends_with("\n    11. e12\n"));
}

#[test]
fn display_alternate_matches_debug() {
    let r = Report::new(chain_of(&["outer: inner", "inner"]));
    assert_eq!(r.display_string(true), r.debug_string());
    assert_eq!(r.display_string(false), "outer: inner");
}

#[test]
fn report_from_ref_and_reportable_agree() {
    let direct = ErrorNode::new(String::from("same text")).report();
    let by_ref = Report::from_ref(ErrorNode::new(String::from("same text")));
    assert_eq!(direct.format(false), by_ref.format(false));
    assert_eq!(direct.format(true), by_ref.format(true));
}

#[test]
fn source_and_message_walk_the_chain() {
    let e = chain_of(&["head", "root"]);
    assert_eq!(e.message(), "head");
    let root = e.source().expect("head has a cause");
    assert_eq!(root.message(), "root");
    assert!(root.source().is_none());
    let _ = e.as_ref_error();
}

#[test]
fn unicode_texts_clean_by_characters() {
    let e = chain_of(&["höher: tiefer ärger", "tiefer ärger"]);
    let r = Report::new(e);
    assert_eq!(r.format(false), "höher: tiefer ärger");
    assert_eq!(r.format(true), "höher\n\nCaused by:\n    1. tiefer ärger\n");
}
