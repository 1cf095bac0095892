//! The rules an edit is offered to, and the contract between the dispatcher
//! and the code that implements them.
//!
//! A rule is named by a variant of [`InsertRule`], [`FormatRule`] or
//! [`DeleteRule`]. The catch-all rules are defined here. What the other rules
//! do is editor policy: it is supplied through [`InsertExt`], [`FormatExt`]
//! and [`DeleteExt`].

use vstd::prelude::*;
use crate::attribute::Attribute;
use crate::delta::{delete_spec, insert_spec, retain_spec, Delta, OperationModel};
use crate::interval::Interval;

verus! {

/// The rules that may rewrite an insertion.
#[derive(Clone, Copy, Debug, PartialEq, Eq, Structural)]
pub enum InsertRule {
    /// Keeps an insertion from splitting an embedded object.
    InsertEmbeds,
    /// Puts an embedded object on a line of its own.
    ForceNewlineForInsertsAroundEmbed,
    /// Leaves a block when a newline is typed on its empty last line.
    AutoExitBlock,
    /// Keeps the block format of the line that text is inserted into.
    PreserveBlockFormatOnInsert,
    /// Keeps the line format on both halves of a line that is split.
    PreserveLineFormatOnSplit,
    /// Clears the line format of the line a newline starts.
    ResetLineFormatOnNewLine,
    /// Formats what was typed by its shape, such as a link.
    AutoFormat,
    /// Gives inserted text the inline format of its surroundings.
    PreserveInlineFormat,
    /// The catch-all: inserts the text as it is.
    DefaultInsertAttribute,
}

/// The rules that may rewrite a formatting request.
#[derive(Clone, Copy, Debug, PartialEq, Eq, Structural)]
pub enum FormatRule {
    /// Applies an attribute that belongs to whole lines.
    ResolveBlockFormat,
    /// Applies an attribute that belongs to a run of characters.
    ResolveInlineFormat,
}

/// The rules that may rewrite a deletion.
#[derive(Clone, Copy, Debug, PartialEq, Eq, Structural)]
pub enum DeleteRule {
    /// Keeps the line format when two lines are merged.
    PreserveLineFormatOnMerge,
    /// The catch-all: deletes the range as it is.
    DefaultDelete,
}

impl InsertRule {
    /// The name under which the rule is reported.
    pub open spec fn spec_ext_name(self) -> Seq<char> {
        match self {
            InsertRule::InsertEmbeds => "InsertEmbedsExt"@,
            InsertRule::ForceNewlineForInsertsAroundEmbed => "ForceNewlineForInsertsAroundEmbedExt"@,
            InsertRule::AutoExitBlock => "AutoExitBlock"@,
            InsertRule::PreserveBlockFormatOnInsert => "PreserveBlockFormatOnInsert"@,
            InsertRule::PreserveLineFormatOnSplit => "PreserveLineFormatOnSplit"@,
            InsertRule::ResetLineFormatOnNewLine => "ResetLineFormatOnNewLine"@,
            InsertRule::AutoFormat => "AutoFormatExt"@,
            InsertRule::PreserveInlineFormat => "PreserveInlineFormat"@,
            InsertRule::DefaultInsertAttribute => "DefaultInsertAttribute"@,
        }
    }

    /// The name under which the rule is reported.
    pub fn ext_name(&self) -> (r: &'static str)
        ensures
            r@ == self.spec_ext_name(),
    {
        match self {
            InsertRule::InsertEmbeds => "InsertEmbedsExt",
            InsertRule::ForceNewlineForInsertsAroundEmbed => "ForceNewlineForInsertsAroundEmbedExt",
            InsertRule::AutoExitBlock => "AutoExitBlock",
            InsertRule::PreserveBlockFormatOnInsert => "PreserveBlockFormatOnInsert",
            InsertRule::PreserveLineFormatOnSplit => "PreserveLineFormatOnSplit",
            InsertRule::ResetLineFormatOnNewLine => "ResetLineFormatOnNewLine",
            InsertRule::AutoFormat => "AutoFormatExt",
            InsertRule::PreserveInlineFormat => "PreserveInlineFormat",
            InsertRule::DefaultInsertAttribute => "DefaultInsertAttribute",
        }
    }

    /// Whether the rule accepts every insertion.
    pub fn is_catch_all(&self) -> (r: bool)
        ensures
            r == (*self == InsertRule::DefaultInsertAttribute),
    {
        match self {
            InsertRule::DefaultInsertAttribute => true,
            _ => false,
        }
    }
}

impl FormatRule {
    /// The name under which the rule is reported.
    pub open spec fn spec_ext_name(self) -> Seq<char> {
        match self {
            FormatRule::ResolveBlockFormat => "ResolveBlockFormat"@,
            FormatRule::ResolveInlineFormat => "ResolveInlineFormat"@,
        }
    }

    /// The name under which the rule is reported.
    pub fn ext_name(&self) -> (r: &'static str)
        ensures
            r@ == self.spec_ext_name(),
    {
        match self {
            FormatRule::ResolveBlockFormat => "ResolveBlockFormat",
            FormatRule::ResolveInlineFormat => "ResolveInlineFormat",
        }
    }
}

impl DeleteRule {
    /// The name under which the rule is reported.
    pub open spec fn spec_ext_name(self) -> Seq<char> {
        match self {
            DeleteRule::PreserveLineFormatOnMerge => "PreserveLineFormatOnMerge"@,
            DeleteRule::DefaultDelete => "DefaultDelete"@,
        }
    }

    /// The name under which the rule is reported.
    pub fn ext_name(&self) -> (r: &'static str)
        ensures
            r@ == self.spec_ext_name(),
    {
        match self {
            DeleteRule::PreserveLineFormatOnMerge => "PreserveLineFormatOnMerge",
            DeleteRule::DefaultDelete => "DefaultDelete",
        }
    }

    /// Whether the rule accepts every deletion.
    pub fn is_catch_all(&self) -> (r: bool)
        ensures
            r == (*self == DeleteRule::DefaultDelete),
    {
        match self {
            DeleteRule::DefaultDelete => true,
            _ => false,
        }
    }
}

/// Policy behind the insert rules other than the catch-all.
///
/// `apply` is asked whether `rule` rewrites the insertion of `text` that
/// replaces `replace_len` characters at `index` of the document `delta`.
/// `Some` is the complete replacement delta and ends the walk; `None` hands
/// the edit to the next rule. An implementation answers from its arguments
/// alone.
pub trait InsertExt {
    fn apply(
        &self,
        rule: InsertRule,
        delta: &Delta,
        replace_len: usize,
        text: &str,
        index: usize,
    ) -> Option<Delta>;
}

/// Policy behind the format rules.
///
/// `apply` is asked whether `rule` rewrites the request to put `attribute` on
/// `interval` of the document `delta`, with the same meaning of `Some` and
/// `None` as for [`InsertExt`].
pub trait FormatExt {
    fn apply(
        &self,
        rule: FormatRule,
        delta: &Delta,
        interval: Interval,
        attribute: &Attribute,
    ) -> Option<Delta>;
}

/// Policy behind the delete rules other than the catch-all.
///
/// `apply` is asked whether `rule` rewrites the deletion of `interval` from
/// the document `delta`, with the same meaning of `Some` and `None` as for
/// [`InsertExt`].
pub trait DeleteExt {
    fn apply(&self, rule: DeleteRule, delta: &Delta, interval: Interval) -> Option<Delta>;
}

/// The delta of the catch-all insert rule: skip to the end of the replaced
/// range, then insert the text.
pub open spec fn default_insert_spec(
    replace_len: nat,
    text: Seq<char>,
    index: nat,
) -> Seq<OperationModel> {
    insert_spec(retain_spec(Seq::empty(), index + replace_len), text)
}

/// The delta of the catch-all delete rule: the document itself when the range
/// is empty, else skip to the range and delete it.
pub open spec fn default_delete_spec(
    delta: Seq<OperationModel>,
    start: nat,
    size: nat,
) -> Seq<OperationModel> {
    if size == 0 {
        delta
    } else {
        delete_spec(retain_spec(Seq::empty(), start), size)
    }
}

/// The catch-all insert rule. It accepts every insertion, empty text
/// included, and answers without consulting the document.
pub fn default_insert(delta: &Delta, replace_len: usize, text: &str, index: usize) -> (r: Option<
    Delta,
>)
    requires
        index + replace_len <= usize::MAX,
    ensures
        r matches Some(d) && d@ == default_insert_spec(replace_len as nat, text@, index as nat),
{
    let mut out = Delta::new();
    out.retain(index + replace_len);
    out.insert(text);
    Some(out)
}

/// The catch-all delete rule. It accepts every deletion, the empty range
/// included.
pub fn default_delete(delta: &Delta, interval: Interval) -> (r: Option<Delta>)
    ensures
        r matches Some(d) && d@ == default_delete_spec(
            delta@,
            interval.spec_start() as nat,
            interval.spec_size() as nat,
        ),
{
    if interval.is_empty() {
        Some(delta.clone())
    } else {
        let mut out = Delta::new();
        out.retain(interval.start());
        out.delete(interval.size());
        Some(out)
    }
}

/// The model of an answer.
pub open spec fn answer_view(out: Option<Delta>) -> Option<Seq<OperationModel>> {
    match out {
        Some(d) => Some(d@),
        None => None,
    }
}

/// `out` is a value that the policy may return for the insert rule `rule`.
pub open spec fn policy_insert<I: InsertExt>(
    policy: &I,
    rule: InsertRule,
    delta: &Delta,
    replace_len: usize,
    text: &str,
    index: usize,
    out: Option<Delta>,
) -> bool {
    call_ensures(I::apply, (policy, rule, delta, replace_len, text, index), out)
}

/// `out` is a value that the policy may return for the format rule `rule`.
pub open spec fn policy_format<F: FormatExt>(
    policy: &F,
    rule: FormatRule,
    delta: &Delta,
    interval: Interval,
    attribute: &Attribute,
    out: Option<Delta>,
) -> bool {
    call_ensures(F::apply, (policy, rule, delta, interval, attribute), out)
}

/// `out` is a value that the policy may return for the delete rule `rule`.
pub open spec fn policy_delete<D: DeleteExt>(
    policy: &D,
    rule: DeleteRule,
    delta: &Delta,
    interval: Interval,
    out: Option<Delta>,
) -> bool {
    call_ensures(D::apply, (policy, rule, delta, interval), out)
}

/// What the insert rule `rule` may answer: the catch-all answers with its
/// delta, every other rule with what the policy returns.
pub open spec fn insert_answers<I: InsertExt>(
    policy: &I,
    rule: InsertRule,
    delta: &Delta,
    replace_len: usize,
    text: &str,
    index: usize,
    out: Option<Seq<OperationModel>>,
) -> bool {
    if rule == InsertRule::DefaultInsertAttribute {
        out == Some(default_insert_spec(replace_len as nat, text@, index as nat))
    } else {
        exists|o: Option<Delta>| #[trigger]
            policy_insert(policy, rule, delta, replace_len, text, index, o) && answer_view(o)
                == out
    }
}

/// What the format rule `rule` may answer: what the policy returns.
pub open spec fn format_answers<F: FormatExt>(
    policy: &F,
    rule: FormatRule,
    delta: &Delta,
    interval: Interval,
    attribute: &Attribute,
    out: Option<Seq<OperationModel>>,
) -> bool {
    exists|o: Option<Delta>| #[trigger]
        policy_format(policy, rule, delta, interval, attribute, o) && answer_view(o) == out
}

/// What the delete rule `rule` may answer: the catch-all answers with its
/// delta, every other rule with what the policy returns.
pub open spec fn delete_answers<D: DeleteExt>(
    policy: &D,
    rule: DeleteRule,
    delta: &Delta,
    interval: Interval,
    out: Option<Seq<OperationModel>>,
) -> bool {
    if rule == DeleteRule::DefaultDelete {
        out == Some(
            default_delete_spec(delta@, interval.spec_start() as nat, interval.spec_size() as nat),
        )
    } else {
        exists|o: Option<Delta>| #[trigger]
            policy_delete(policy, rule, delta, interval, o) && answer_view(o) == out
    }
}

} // verus!
