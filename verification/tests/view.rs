use std::cell::{Cell, RefCell};
use std::rc::Rc;

use flowy_document_infra::{
    construct_delete_exts, construct_format_exts, construct_insert_exts, default_delete,
    default_insert, Attribute, DeleteExt, DeleteRule, Delta, FormatExt, FormatRule, InsertExt,
    InsertRule, Interval, OTError, OTErrorCode, Operation, View,
};

/// A policy under which every rule declines, and which counts how often it is
/// asked.
struct Silent {
    asked: Cell<usize>,
}

impl Silent {
    fn new() -> Silent {
        Silent { asked: Cell::new(0) }
    }
}

impl InsertExt for Silent {
    fn apply(&self, _: InsertRule, _: &Delta, _: usize, _: &str, _: usize) -> Option<Delta> {
        self.asked.set(self.asked.get() + 1);
        None
    }
}

impl FormatExt for Silent {
    fn apply(&self, _: FormatRule, _: &Delta, _: Interval, _: &Attribute) -> Option<Delta> {
        self.asked.set(self.asked.get() + 1);
        None
    }
}

impl DeleteExt for Silent {
    fn apply(&self, _: DeleteRule, _: &Delta, _: Interval) -> Option<Delta> {
        self.asked.set(self.asked.get() + 1);
        None
    }
}

/// The names of the rules that a policy was asked about, in order.
type Log = Rc<RefCell<Vec<&'static str>>>;

/// A policy under which every rule accepts with a delta that tells the rules
/// apart, and which records the rules that were asked.
struct Eager {
    log: Log,
}

impl Eager {
    fn new() -> Eager {
        Eager { log: Rc::new(RefCell::new(vec![])) }
    }

    fn logging(log: &Log) -> Eager {
        Eager { log: log.clone() }
    }
}

fn marked(name: &str) -> Delta {
    Delta { ops: vec![Operation::Insert(name.to_string(), vec![]), Operation::Retain(1, vec![])] }
}

fn marked_trimmed(name: &str) -> Delta {
    Delta { ops: vec![Operation::Insert(name.to_string(), vec![])] }
}

impl InsertExt for Eager {
    fn apply(&self, rule: InsertRule, _: &Delta, _: usize, _: &str, _: usize) -> Option<Delta> {
        self.log.borrow_mut().push(rule.ext_name());
        Some(marked(rule.ext_name()))
    }
}

impl FormatExt for Eager {
    fn apply(&self, rule: FormatRule, _: &Delta, _: Interval, _: &Attribute) -> Option<Delta> {
        self.log.borrow_mut().push(rule.ext_name());
        Some(marked(rule.ext_name()))
    }
}

impl DeleteExt for Eager {
    fn apply(&self, rule: DeleteRule, _: &Delta, _: Interval) -> Option<Delta> {
        self.log.borrow_mut().push(rule.ext_name());
        Some(marked(rule.ext_name()))
    }
}

/// A policy whose inline format rule puts the attribute on the interval and
/// whose other rules decline.
struct InlineOnly {
    log: Log,
}

impl InlineOnly {
    fn new() -> InlineOnly {
        InlineOnly { log: Rc::new(RefCell::new(vec![])) }
    }

    fn logging(log: &Log) -> InlineOnly {
        InlineOnly { log: log.clone() }
    }
}

impl FormatExt for InlineOnly {
    fn apply(
        &self,
        rule: FormatRule,
        _: &Delta,
        interval: Interval,
        attribute: &Attribute,
    ) -> Option<Delta> {
        self.log.borrow_mut().push(rule.ext_name());
        match rule {
            FormatRule::ResolveBlockFormat => None,
            FormatRule::ResolveInlineFormat => Some(Delta {
                ops: vec![
                    Operation::Retain(interval.start(), vec![]),
                    Operation::Retain(interval.size(), vec![attribute.clone()]),
                    Operation::Retain(4, vec![]),
                ],
            }),
        }
    }
}

fn document() -> Delta {
    Delta {
        ops: vec![
            Operation::Insert("hello world".to_string(), vec![]),
            Operation::Insert("\n".to_string(), vec![Attribute::new("header", "1")]),
            Operation::Retain(2, vec![]),
        ],
    }
}

fn document_trimmed() -> Delta {
    Delta {
        ops: vec![
            Operation::Insert("hello world".to_string(), vec![]),
            Operation::Insert("\n".to_string(), vec![Attribute::new("header", "1")]),
        ],
    }
}

#[test]
fn insert_catalog_is_in_priority_order() {
    assert_eq!(
        construct_insert_exts(),
        vec![
            InsertRule::InsertEmbeds,
            InsertRule::ForceNewlineForInsertsAroundEmbed,
            InsertRule::AutoExitBlock,
            InsertRule::PreserveBlockFormatOnInsert,
            InsertRule::PreserveLineFormatOnSplit,
            InsertRule::ResetLineFormatOnNewLine,
            InsertRule::AutoFormat,
            InsertRule::PreserveInlineFormat,
            InsertRule::DefaultInsertAttribute,
        ]
    );
}

#[test]
fn format_catalog_is_in_priority_order() {
    assert_eq!(
        construct_format_exts(),
        vec![FormatRule::ResolveBlockFormat, FormatRule::ResolveInlineFormat]
    );
}

#[test]
fn delete_catalog_is_in_priority_order() {
    assert_eq!(
        construct_delete_exts(),
        vec![DeleteRule::PreserveLineFormatOnMerge, DeleteRule::DefaultDelete]
    );
}

#[test]
fn new_view_holds_the_catalogs() {
    let view = View::new(Silent::new(), Silent::new(), Silent::new());
    assert_eq!(view.insert_exts(), &construct_insert_exts());
    assert_eq!(view.format_exts(), &construct_format_exts());
    assert_eq!(view.delete_exts(), &construct_delete_exts());
}

#[test]
fn rules_report_stable_names() {
    let names: Vec<&str> = construct_insert_exts().iter().map(|r| r.ext_name()).collect();
    assert_eq!(
        names,
        vec![
            "InsertEmbedsExt",
            "ForceNewlineForInsertsAroundEmbedExt",
            "AutoExitBlock",
            "PreserveBlockFormatOnInsert",
            "PreserveLineFormatOnSplit",
            "ResetLineFormatOnNewLine",
            "AutoFormatExt",
            "PreserveInlineFormat",
            "DefaultInsertAttribute",
        ]
    );
    assert_eq!(FormatRule::ResolveBlockFormat.ext_name(), "ResolveBlockFormat");
    assert_eq!(FormatRule::ResolveInlineFormat.ext_name(), "ResolveInlineFormat");
    assert_eq!(DeleteRule::PreserveLineFormatOnMerge.ext_name(), "PreserveLineFormatOnMerge");
    assert_eq!(DeleteRule::DefaultDelete.ext_name(), "DefaultDelete");
}

#[test]
fn only_the_last_insert_and_delete_rules_are_catch_alls() {
    let inserts: Vec<bool> = construct_insert_exts().iter().map(|r| r.is_catch_all()).collect();
    assert_eq!(inserts, vec![false, false, false, false, false, false, false, false, true]);
    let deletes: Vec<bool> = construct_delete_exts().iter().map(|r| r.is_catch_all()).collect();
    assert_eq!(deletes, vec![false, true]);
}

#[test]
fn default_insert_skips_to_the_position_and_inserts() {
    assert_eq!(
        default_insert(&document(), 0, "a", 3),
        Some(Delta {
            ops: vec![Operation::Retain(3, vec![]), Operation::Insert("a".to_string(), vec![])],
        })
    );
}

#[test]
fn default_insert_lands_after_the_replaced_range() {
    assert_eq!(
        default_insert(&document(), 2, "xy", 3),
        Some(Delta {
            ops: vec![Operation::Retain(5, vec![]), Operation::Insert("xy".to_string(), vec![])],
        })
    );
}

#[test]
fn default_insert_accepts_the_edge_cases() {
    assert_eq!(
        default_insert(&Delta::new(), 0, "a", 0),
        Some(Delta { ops: vec![Operation::Insert("a".to_string(), vec![])] })
    );
    assert_eq!(
        default_insert(&document(), 0, "", 3),
        Some(Delta { ops: vec![Operation::Retain(3, vec![])] })
    );
    assert_eq!(default_insert(&Delta::new(), 0, "", 0), Some(Delta { ops: vec![] }));
}

#[test]
fn default_delete_skips_to_the_range_and_deletes_it() {
    assert_eq!(
        default_delete(&document(), Interval::new(2, 5)),
        Some(Delta { ops: vec![Operation::Retain(2, vec![]), Operation::Delete(3)] })
    );
    assert_eq!(
        default_delete(&document(), Interval::new(0, 4)),
        Some(Delta { ops: vec![Operation::Delete(4)] })
    );
}

#[test]
fn default_delete_of_an_empty_range_answers_with_the_document() {
    assert_eq!(default_delete(&document(), Interval::new(0, 0)), Some(document()));
    assert_eq!(default_delete(&document(), Interval::new(6, 6)), Some(document()));
    assert_eq!(default_delete(&Delta::new(), Interval::new(0, 0)), Some(Delta::new()));
}

#[test]
fn delete_of_empty_interval_with_only_the_catch_all_gives_the_trimmed_document() {
    let view = View::with_chains(
        Silent::new(),
        Silent::new(),
        Silent::new(),
        vec![],
        vec![],
        vec![DeleteRule::DefaultDelete],
    );
    let result = view.delete(&document(), Interval::new(0, 0));
    assert_eq!(result, Ok(document_trimmed()));
}

#[test]
fn insert_falls_through_to_the_default_when_the_embed_rule_declines() {
    let policy = Silent::new();
    let view = View::with_chains(
        policy,
        Silent::new(),
        Silent::new(),
        vec![InsertRule::InsertEmbeds, InsertRule::DefaultInsertAttribute],
        vec![],
        vec![],
    );
    let result = view.insert(&document(), "a", Interval::new(3, 3));
    assert_eq!(
        result,
        Ok(Delta {
            ops: vec![Operation::Retain(3, vec![]), Operation::Insert("a".to_string(), vec![])],
        })
    );
}

#[test]
fn insert_through_the_whole_catalog_reaches_the_default() {
    let view = View::new(Silent::new(), Silent::new(), Silent::new());
    let applied = view.insert_applied(&document(), "a", Interval::new(3, 3));
    assert_eq!(
        applied,
        Ok((
            8,
            Delta {
                ops: vec![Operation::Retain(3, vec![]), Operation::Insert("a".to_string(), vec![])],
            }
        ))
    );
    assert_eq!(view.insert_exts()[8].ext_name(), "DefaultInsertAttribute");
}

#[test]
fn insert_of_empty_text_is_not_special_cased() {
    let view = View::new(Silent::new(), Silent::new(), Silent::new());
    assert_eq!(view.insert(&document(), "", Interval::new(3, 3)), Ok(Delta { ops: vec![] }));
}

#[test]
fn insert_over_a_range_lands_after_it() {
    let view = View::new(Silent::new(), Silent::new(), Silent::new());
    assert_eq!(
        view.insert(&document(), "xy", Interval::new(3, 5)),
        Ok(Delta {
            ops: vec![Operation::Retain(5, vec![]), Operation::Insert("xy".to_string(), vec![])],
        })
    );
}

#[test]
fn delete_through_the_catalog_reaches_the_default() {
    let view = View::new(Silent::new(), Silent::new(), Silent::new());
    assert_eq!(
        view.delete_applied(&document(), Interval::new(2, 5)),
        Ok((1, Delta { ops: vec![Operation::Retain(2, vec![]), Operation::Delete(3)] }))
    );
    assert_eq!(
        view.delete(&document(), Interval::new(2, 5)),
        Ok(Delta { ops: vec![Operation::Retain(2, vec![]), Operation::Delete(3)] })
    );
}

#[test]
fn format_returns_the_trimmed_answer_of_the_inline_rule() {
    let log: Log = Rc::new(RefCell::new(vec![]));
    let view = View::new(Silent::new(), InlineOnly::logging(&log), Silent::new());
    let bold = Attribute::new("bold", "true");
    let result = view.format(&document(), bold.clone(), Interval::new(2, 5));
    assert_eq!(
        result,
        Ok(Delta { ops: vec![Operation::Retain(2, vec![]), Operation::Retain(3, vec![bold])] })
    );
    assert_eq!(*log.borrow(), vec!["ResolveBlockFormat", "ResolveInlineFormat"]);
}

#[test]
fn format_does_not_ask_the_rules_after_the_one_that_accepts() {
    let log: Log = Rc::new(RefCell::new(vec![]));
    let view = View::with_chains(
        Silent::new(),
        InlineOnly::logging(&log),
        Silent::new(),
        vec![],
        vec![FormatRule::ResolveInlineFormat, FormatRule::ResolveBlockFormat],
        vec![],
    );
    let bold = Attribute::new("bold", "true");
    let applied = view.format_applied(&document(), &bold, Interval::new(2, 5));
    assert_eq!(
        applied,
        Ok((0, Delta { ops: vec![Operation::Retain(2, vec![]), Operation::Retain(3, vec![bold])] }))
    );
    assert_eq!(*log.borrow(), vec!["ResolveInlineFormat"]);
}

#[test]
fn first_accepting_insert_rule_wins() {
    let log: Log = Rc::new(RefCell::new(vec![]));
    let view = View::new(Eager::logging(&log), Silent::new(), Silent::new());
    assert_eq!(
        view.insert_applied(&document(), "a", Interval::new(3, 3)),
        Ok((0, marked_trimmed("InsertEmbedsExt")))
    );
    assert_eq!(*log.borrow(), vec!["InsertEmbedsExt"]);
    let reordered = View::with_chains(
        Eager::new(),
        Silent::new(),
        Silent::new(),
        vec![InsertRule::AutoFormat, InsertRule::InsertEmbeds, InsertRule::DefaultInsertAttribute],
        vec![],
        vec![],
    );
    assert_eq!(
        reordered.insert(&document(), "a", Interval::new(3, 3)),
        Ok(marked_trimmed("AutoFormatExt"))
    );
}

#[test]
fn first_accepting_delete_rule_wins() {
    let view = View::new(Silent::new(), Silent::new(), Eager::new());
    assert_eq!(
        view.delete(&document(), Interval::new(2, 5)),
        Ok(marked_trimmed("PreserveLineFormatOnMerge"))
    );
    let log: Log = Rc::new(RefCell::new(vec![]));
    let reordered = View::with_chains(
        Silent::new(),
        Silent::new(),
        Eager::logging(&log),
        vec![],
        vec![],
        vec![DeleteRule::DefaultDelete, DeleteRule::PreserveLineFormatOnMerge],
    );
    assert_eq!(
        reordered.delete(&document(), Interval::new(2, 5)),
        Ok(Delta { ops: vec![Operation::Retain(2, vec![]), Operation::Delete(3)] })
    );
    assert!(log.borrow().is_empty());
}

#[test]
fn first_accepting_format_rule_wins() {
    let log: Log = Rc::new(RefCell::new(vec![]));
    let view = View::new(Silent::new(), Eager::logging(&log), Silent::new());
    assert_eq!(
        view.format(&document(), Attribute::new("bold", "true"), Interval::new(2, 5)),
        Ok(marked_trimmed("ResolveBlockFormat"))
    );
    assert_eq!(*log.borrow(), vec!["ResolveBlockFormat"]);
}

#[test]
fn empty_chains_fail_with_the_error_of_their_kind() {
    let view =
        View::with_chains(Eager::new(), Eager::new(), Eager::new(), vec![], vec![], vec![]);
    assert_eq!(
        view.insert(&document(), "a", Interval::new(3, 3)),
        Err(OTError { code: OTErrorCode::ApplyInsertFail })
    );
    assert_eq!(
        view.delete(&document(), Interval::new(2, 5)),
        Err(OTError { code: OTErrorCode::ApplyDeleteFail })
    );
    assert_eq!(
        view.format(&document(), Attribute::new("bold", "true"), Interval::new(2, 5)),
        Err(OTError { code: OTErrorCode::ApplyFormatFail })
    );
    assert_eq!(
        view.insert_applied(&document(), "a", Interval::new(3, 3)),
        Err(OTError::new(OTErrorCode::ApplyInsertFail))
    );
}

#[test]
fn chains_whose_rules_all_decline_fail_with_the_error_of_their_kind() {
    let view = View::with_chains(
        Silent::new(),
        Silent::new(),
        Silent::new(),
        vec![InsertRule::InsertEmbeds, InsertRule::AutoFormat, InsertRule::PreserveInlineFormat],
        vec![FormatRule::ResolveBlockFormat, FormatRule::ResolveInlineFormat],
        vec![DeleteRule::PreserveLineFormatOnMerge],
    );
    assert_eq!(
        view.insert(&document(), "a", Interval::new(3, 3)),
        Err(OTError { code: OTErrorCode::ApplyInsertFail })
    );
    assert_eq!(
        view.delete(&document(), Interval::new(0, 0)),
        Err(OTError { code: OTErrorCode::ApplyDeleteFail })
    );
    assert_eq!(
        view.format(&document(), Attribute::remove("bold"), Interval::new(2, 5)),
        Err(OTError { code: OTErrorCode::ApplyFormatFail })
    );
}

#[test]
fn repeated_calls_give_identical_results() {
    let view = View::new(Silent::new(), InlineOnly::new(), Silent::new());
    let bold = Attribute::new("bold", "true");
    for _ in 0..3 {
        assert_eq!(
            view.insert(&document(), "a", Interval::new(3, 3)),
            view.insert(&document(), "a", Interval::new(3, 3))
        );
        assert_eq!(
            view.delete(&document(), Interval::new(2, 5)),
            view.delete(&document(), Interval::new(2, 5))
        );
        assert_eq!(
            view.format(&document(), bold.clone(), Interval::new(2, 5)),
            view.format(&document(), bold.clone(), Interval::new(2, 5))
        );
    }
}
