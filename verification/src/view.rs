//! The dispatcher: three chains of rules, and the walk that offers an edit to
//! a chain and returns the normalized delta of the first rule that accepts.

use vstd::prelude::*;
use vstd::view::View as _;
use crate::attribute::Attribute;
use crate::delta::{trim, Delta, OperationModel};
use crate::dispatch::{
    accepted_at, declines_before, dispatched, lemma_accepted_is_dispatched,
    lemma_resolved_deterministic, outcome_view, resolved, result_view, settled_at, Answers,
};
use crate::errors::{OTError, OTErrorCode};
use crate::extensions::{
    answer_view, default_delete, default_insert, delete_answers, format_answers, insert_answers,
    policy_delete,
    policy_format, policy_insert, DeleteExt, DeleteRule, FormatExt, FormatRule, InsertExt,
    InsertRule,
};
use crate::interval::Interval;

verus! {

/// The insert rules in the order in which they are asked.
pub open spec fn insert_catalog() -> Seq<InsertRule> {
    seq![
        InsertRule::InsertEmbeds,
        InsertRule::ForceNewlineForInsertsAroundEmbed,
        InsertRule::AutoExitBlock,
        InsertRule::PreserveBlockFormatOnInsert,
        InsertRule::PreserveLineFormatOnSplit,
        InsertRule::ResetLineFormatOnNewLine,
        InsertRule::AutoFormat,
        InsertRule::PreserveInlineFormat,
        InsertRule::DefaultInsertAttribute,
    ]
}

/// The format rules in the order in which they are asked.
pub open spec fn format_catalog() -> Seq<FormatRule> {
    seq![FormatRule::ResolveBlockFormat, FormatRule::ResolveInlineFormat]
}

/// The delete rules in the order in which they are asked.
pub open spec fn delete_catalog() -> Seq<DeleteRule> {
    seq![DeleteRule::PreserveLineFormatOnMerge, DeleteRule::DefaultDelete]
}

/// The insert and delete catalogs end in their catch-all, so a walk of either
/// always finds a rule that accepts.
pub proof fn lemma_catalogs_end_in_catch_all()
    ensures
        insert_catalog().last() == InsertRule::DefaultInsertAttribute,
        insert_catalog().contains(InsertRule::DefaultInsertAttribute),
        delete_catalog().last() == DeleteRule::DefaultDelete,
        delete_catalog().contains(DeleteRule::DefaultDelete),
{
    assert(insert_catalog()[8] == InsertRule::DefaultInsertAttribute);
    assert(delete_catalog()[1] == DeleteRule::DefaultDelete);
}

/// Builds the insert chain.
pub fn construct_insert_exts() -> (exts: Vec<InsertRule>)
    ensures
        exts@ == insert_catalog(),
{
    let mut exts: Vec<InsertRule> = Vec::new();
    exts.push(InsertRule::InsertEmbeds);
    exts.push(InsertRule::ForceNewlineForInsertsAroundEmbed);
    exts.push(InsertRule::AutoExitBlock);
    exts.push(InsertRule::PreserveBlockFormatOnInsert);
    exts.push(InsertRule::PreserveLineFormatOnSplit);
    exts.push(InsertRule::ResetLineFormatOnNewLine);
    exts.push(InsertRule::AutoFormat);
    exts.push(InsertRule::PreserveInlineFormat);
    exts.push(InsertRule::DefaultInsertAttribute);
    assert(exts@ =~= insert_catalog());
    exts
}

/// Builds the format chain.
pub fn construct_format_exts() -> (exts: Vec<FormatRule>)
    ensures
        exts@ == format_catalog(),
{
    let mut exts: Vec<FormatRule> = Vec::new();
    exts.push(FormatRule::ResolveBlockFormat);
    exts.push(FormatRule::ResolveInlineFormat);
    assert(exts@ =~= format_catalog());
    exts
}

/// Builds the delete chain.
pub fn construct_delete_exts() -> (exts: Vec<DeleteRule>)
    ensures
        exts@ == delete_catalog(),
{
    let mut exts: Vec<DeleteRule> = Vec::new();
    exts.push(DeleteRule::PreserveLineFormatOnMerge);
    exts.push(DeleteRule::DefaultDelete);
    assert(exts@ =~= delete_catalog());
    exts
}

/// The dispatcher. It owns the three chains and the policy behind their
/// rules, and nothing in it changes once it is built.
pub struct View<I: InsertExt, F: FormatExt, D: DeleteExt> {
    insert_policy: I,
    format_policy: F,
    delete_policy: D,
    insert_exts: Vec<InsertRule>,
    format_exts: Vec<FormatRule>,
    delete_exts: Vec<DeleteRule>,
}

impl<I: InsertExt, F: FormatExt, D: DeleteExt> View<I, F, D> {
    /// The insert chain, first rule first.
    pub closed spec fn insert_chain(&self) -> Seq<InsertRule> {
        self.insert_exts@
    }

    /// The format chain, first rule first.
    pub closed spec fn format_chain(&self) -> Seq<FormatRule> {
        self.format_exts@
    }

    /// The delete chain, first rule first.
    pub closed spec fn delete_chain(&self) -> Seq<DeleteRule> {
        self.delete_exts@
    }

    /// The policy behind the insert rules.
    pub closed spec fn insert_policy(&self) -> &I {
        &self.insert_policy
    }

    /// The policy behind the format rules.
    pub closed spec fn format_policy(&self) -> &F {
        &self.format_policy
    }

    /// The policy behind the delete rules.
    pub closed spec fn delete_policy(&self) -> &D {
        &self.delete_policy
    }

    /// What each rule of the insert chain may answer to the insertion of
    /// `text` over `interval` of `delta`.
    pub open spec fn insert_relation(&self, delta: &Delta, text: &str, interval: Interval) -> Answers {
        |i: int, out: Option<Seq<OperationModel>>|
            insert_answers(
                self.insert_policy(),
                self.insert_chain()[i],
                delta,
                interval.spec_size(),
                text,
                interval.spec_start(),
                out,
            )
    }

    /// What each rule of the delete chain may answer to the deletion of
    /// `interval` from `delta`.
    pub open spec fn delete_relation(&self, delta: &Delta, interval: Interval) -> Answers {
        |i: int, out: Option<Seq<OperationModel>>|
            delete_answers(self.delete_policy(), self.delete_chain()[i], delta, interval, out)
    }

    /// What each rule of the format chain may answer to the request to put
    /// `attribute` on `interval` of `delta`.
    pub open spec fn format_relation(
        &self,
        delta: &Delta,
        attribute: &Attribute,
        interval: Interval,
    ) -> Answers {
        |i: int, out: Option<Seq<OperationModel>>|
            format_answers(
                self.format_policy(),
                self.format_chain()[i],
                delta,
                interval,
                attribute,
                out,
            )
    }

    /// A dispatcher over the three catalogs, with the given policies behind
    /// their rules.
    pub fn new(insert_policy: I, format_policy: F, delete_policy: D) -> (view: Self)
        ensures
            view.insert_chain() == insert_catalog(),
            view.format_chain() == format_catalog(),
            view.delete_chain() == delete_catalog(),
            *view.insert_policy() == insert_policy,
            *view.format_policy() == format_policy,
            *view.delete_policy() == delete_policy,
    {
        View {
            insert_policy,
            format_policy,
            delete_policy,
            insert_exts: construct_insert_exts(),
            format_exts: construct_format_exts(),
            delete_exts: construct_delete_exts(),
        }
    }

    /// A dispatcher over chains chosen by the caller.
    pub fn with_chains(
        insert_policy: I,
        format_policy: F,
        delete_policy: D,
        insert_exts: Vec<InsertRule>,
        format_exts: Vec<FormatRule>,
        delete_exts: Vec<DeleteRule>,
    ) -> (view: Self)
        ensures
            view.insert_chain() == insert_exts@,
            view.format_chain() == format_exts@,
            view.delete_chain() == delete_exts@,
            *view.insert_policy() == insert_policy,
            *view.format_policy() == format_policy,
            *view.delete_policy() == delete_policy,
    {
        View { insert_policy, format_policy, delete_policy, insert_exts, format_exts, delete_exts }
    }

    /// The insert chain.
    pub fn insert_exts(&self) -> (exts: &Vec<InsertRule>)
        ensures
            exts@ == self.insert_chain(),
    {
        &self.insert_exts
    }

    /// The format chain.
    pub fn format_exts(&self) -> (exts: &Vec<FormatRule>)
        ensures
            exts@ == self.format_chain(),
    {
        &self.format_exts
    }

    /// The delete chain.
    pub fn delete_exts(&self) -> (exts: &Vec<DeleteRule>)
        ensures
            exts@ == self.delete_chain(),
    {
        &self.delete_exts
    }

    /// Offers the insertion of `text` over `interval` of `delta` to the insert
    /// chain. Returns the position of the first rule that accepts together
    /// with its normalized delta.
    pub fn insert_applied(&self, delta: &Delta, text: &str, interval: Interval) -> (r: Result<
        (usize, Delta),
        OTError,
    >)
        ensures
            dispatched(
                self.insert_chain().len(),
                self.insert_relation(delta, text, interval),
                outcome_view(r),
            ),
            r matches Err(e) ==> e.code == OTErrorCode::ApplyInsertFail,
            self.insert_chain().contains(InsertRule::DefaultInsertAttribute) ==> r is Ok,
    {
        let replace_len = interval.size();
        let index = interval.start();
        let ghost answers = self.insert_relation(delta, text, interval);
        let ghost n = self.insert_chain().len();
        let mut i: usize = 0;
        while i < self.insert_exts.len()
            invariant
                i <= self.insert_exts.len(),
                n == self.insert_exts@.len(),
                replace_len == interval.spec_size(),
                index == interval.spec_start(),
                index + replace_len <= usize::MAX,
                answers == self.insert_relation(delta, text, interval),
                declines_before(answers, i as int),
            decreases self.insert_exts.len() - i,
        {
            let rule = self.insert_exts[i];
            let out = if rule.is_catch_all() {
                default_insert(delta, replace_len, text, index)
            } else {
                let o = self.insert_policy.apply(rule, delta, replace_len, text, index);
                assert(policy_insert(&self.insert_policy, rule, delta, replace_len, text, index, o));
                o
            };
            match out {
                Some(candidate) => {
                    let ghost accepted = candidate@;
                    let mut found = candidate;
                    trim(&mut found);
                    proof {
                        assert(answers(i as int, Some(accepted)));
                        assert(accepted_at(n, answers, i as int, accepted));
                        lemma_accepted_is_dispatched(n, answers, i as int, accepted);
                    }
                    return Ok((i, found));
                },
                None => {
                    assert(answers(i as int, None));
                },
            }
            i += 1;
        }
        proof {
            if self.insert_chain().contains(InsertRule::DefaultInsertAttribute) {
                let k = choose|k: int|
                    0 <= k < n && self.insert_chain()[k] == InsertRule::DefaultInsertAttribute;
                assert(answers(k, None));
            }
        }
        Err(OTError::new(OTErrorCode::ApplyInsertFail))
    }
    /// Offers the deletion of `interval` from `delta` to the delete chain.
    /// Returns the position of the first rule that accepts together with its
    /// normalized delta.
    pub fn delete_applied(&self, delta: &Delta, interval: Interval) -> (r: Result<
        (usize, Delta),
        OTError,
    >)
        ensures
            dispatched(
                self.delete_chain().len(),
                self.delete_relation(delta, interval),
                outcome_view(r),
            ),
            r matches Err(e) ==> e.code == OTErrorCode::ApplyDeleteFail,
            self.delete_chain().contains(DeleteRule::DefaultDelete) ==> r is Ok,
    {
        let ghost answers = self.delete_relation(delta, interval);
        let ghost n = self.delete_chain().len();
        let mut i: usize = 0;
        while i < self.delete_exts.len()
            invariant
                i <= self.delete_exts.len(),
                n == self.delete_exts@.len(),
                answers == self.delete_relation(delta, interval),
                declines_before(answers, i as int),
            decreases self.delete_exts.len() - i,
        {
            let rule = self.delete_exts[i];
            let out = if rule.is_catch_all() {
                default_delete(delta, interval)
            } else {
                let o = self.delete_policy.apply(rule, delta, interval);
                assert(policy_delete(&self.delete_policy, rule, delta, interval, o));
                o
            };
            match out {
                Some(candidate) => {
                    let ghost accepted = candidate@;
                    let mut found = candidate;
                    trim(&mut found);
                    proof {
                        assert(answers(i as int, Some(accepted)));
                        assert(accepted_at(n, answers, i as int, accepted));
                        lemma_accepted_is_dispatched(n, answers, i as int, accepted);
                    }
                    return Ok((i, found));
                },
                None => {
                    assert(answers(i as int, None));
                },
            }
            i += 1;
        }
        proof {
            if self.delete_chain().contains(DeleteRule::DefaultDelete) {
                let k = choose|k: int|
                    0 <= k < n && self.delete_chain()[k] == DeleteRule::DefaultDelete;
                assert(answers(k, None));
            }
        }
        Err(OTError::new(OTErrorCode::ApplyDeleteFail))
    }

    /// Offers the request to put `attribute` on `interval` of `delta` to the
    /// format chain. Returns the position of the first rule that accepts
    /// together with its normalized delta.
    pub fn format_applied(&self, delta: &Delta, attribute: &Attribute, interval: Interval) -> (r:
        Result<(usize, Delta), OTError>)
        ensures
            dispatched(
                self.format_chain().len(),
                self.format_relation(delta, attribute, interval),
                outcome_view(r),
            ),
            r matches Err(e) ==> e.code == OTErrorCode::ApplyFormatFail,
    {
        let ghost answers = self.format_relation(delta, attribute, interval);
        let ghost n = self.format_chain().len();
        let mut i: usize = 0;
        while i < self.format_exts.len()
            invariant
                i <= self.format_exts.len(),
                n == self.format_exts@.len(),
                answers == self.format_relation(delta, attribute, interval),
                declines_before(answers, i as int),
            decreases self.format_exts.len() - i,
        {
            let rule = self.format_exts[i];
            let out = self.format_policy.apply(rule, delta, interval, attribute);
            assert(policy_format(&self.format_policy, rule, delta, interval, attribute, out));
            match out {
                Some(candidate) => {
                    let ghost accepted = candidate@;
                    let mut found = candidate;
                    trim(&mut found);
                    proof {
                        assert(answers(i as int, Some(accepted)));
                        assert(accepted_at(n, answers, i as int, accepted));
                        lemma_accepted_is_dispatched(n, answers, i as int, accepted);
                    }
                    return Ok((i, found));
                },
                None => {
                    assert(answers(i as int, None));
                },
            }
            i += 1;
        }
        Err(OTError::new(OTErrorCode::ApplyFormatFail))
    }

    /// The delta that stands for the insertion of `text` over `interval` of
    /// `delta`: the normalized answer of the first insert rule that accepts.
    /// Fails with `ApplyInsertFail` when every rule declines, which cannot
    /// happen while the chain holds the catch-all.
    pub fn insert(&self, delta: &Delta, text: &str, interval: Interval) -> (r: Result<
        Delta,
        OTError,
    >)
        ensures
            resolved(
                self.insert_chain().len(),
                self.insert_relation(delta, text, interval),
                OTErrorCode::ApplyInsertFail,
                r,
            ),
            self.insert_chain().contains(InsertRule::DefaultInsertAttribute) ==> r is Ok,
    {
        let applied = self.insert_applied(delta, text, interval);
        let ghost n = self.insert_chain().len();
        let ghost answers = self.insert_relation(delta, text, interval);
        match applied {
            Ok((i, found)) => {
                let ghost kept = found@;
                assert(outcome_view(applied) == Some((i as int, kept)));
                assert(settled_at(n, answers, i as int, kept));
                let r: Result<Delta, OTError> = Ok(found);
                assert(r->Ok_0@ == kept);
                r
            },
            Err(e) => {
                assert(outcome_view(applied) is None);
                assert(declines_before(answers, n as int));
                Err(e)
            },
        }
    }

    /// The delta that stands for the deletion of `interval` from `delta`: the
    /// normalized answer of the first delete rule that accepts. Fails with
    /// `ApplyDeleteFail` when every rule declines, which cannot happen while
    /// the chain holds the catch-all.
    pub fn delete(&self, delta: &Delta, interval: Interval) -> (r: Result<Delta, OTError>)
        ensures
            resolved(
                self.delete_chain().len(),
                self.delete_relation(delta, interval),
                OTErrorCode::ApplyDeleteFail,
                r,
            ),
            self.delete_chain().contains(DeleteRule::DefaultDelete) ==> r is Ok,
    {
        let applied = self.delete_applied(delta, interval);
        let ghost n = self.delete_chain().len();
        let ghost answers = self.delete_relation(delta, interval);
        match applied {
            Ok((i, found)) => {
                let ghost kept = found@;
                assert(outcome_view(applied) == Some((i as int, kept)));
                assert(settled_at(n, answers, i as int, kept));
                let r: Result<Delta, OTError> = Ok(found);
                assert(r->Ok_0@ == kept);
                r
            },
            Err(e) => {
                assert(outcome_view(applied) is None);
                assert(declines_before(answers, n as int));
                Err(e)
            },
        }
    }

    /// The delta that stands for putting `attribute` on `interval` of `delta`:
    /// the normalized answer of the first format rule that accepts. Fails with
    /// `ApplyFormatFail` when every rule declines.
    pub fn format(&self, delta: &Delta, attribute: Attribute, interval: Interval) -> (r: Result<
        Delta,
        OTError,
    >)
        ensures
            resolved(
                self.format_chain().len(),
                self.format_relation(delta, &attribute, interval),
                OTErrorCode::ApplyFormatFail,
                r,
            ),
    {
        let applied = self.format_applied(delta, &attribute, interval);
        let ghost n = self.format_chain().len();
        let ghost answers = self.format_relation(delta, &attribute, interval);
        match applied {
            Ok((i, found)) => {
                let ghost kept = found@;
                assert(outcome_view(applied) == Some((i as int, kept)));
                assert(settled_at(n, answers, i as int, kept));
                let r: Result<Delta, OTError> = Ok(found);
                assert(r->Ok_0@ == kept);
                r
            },
            Err(e) => {
                assert(outcome_view(applied) is None);
                assert(declines_before(answers, n as int));
                Err(e)
            },
        }
    }
    /// On this insertion the policy gives each rule one answer only.
    pub open spec fn insert_policy_is_function(
        &self,
        delta: &Delta,
        text: &str,
        interval: Interval,
    ) -> bool {
        forall|rule: InsertRule, a: Option<Delta>, b: Option<Delta>|
            #![trigger
                policy_insert(self.insert_policy(), rule, delta, interval.spec_size(), text, interval.spec_start(), a),
                policy_insert(self.insert_policy(), rule, delta, interval.spec_size(), text, interval.spec_start(), b),
            ]
            policy_insert(
                self.insert_policy(),
                rule,
                delta,
                interval.spec_size(),
                text,
                interval.spec_start(),
                a,
            ) && policy_insert(
                self.insert_policy(),
                rule,
                delta,
                interval.spec_size(),
                text,
                interval.spec_start(),
                b,
            ) ==> answer_view(a) == answer_view(b)
    }

    /// On this deletion the policy gives each rule one answer only.
    pub open spec fn delete_policy_is_function(&self, delta: &Delta, interval: Interval) -> bool {
        forall|rule: DeleteRule, a: Option<Delta>, b: Option<Delta>|
            #![trigger
                policy_delete(self.delete_policy(), rule, delta, interval, a),
                policy_delete(self.delete_policy(), rule, delta, interval, b),
            ]
            policy_delete(self.delete_policy(), rule, delta, interval, a) && policy_delete(
                self.delete_policy(),
                rule,
                delta,
                interval,
                b,
            ) ==> answer_view(a) == answer_view(b)
    }

    /// On this formatting request the policy gives each rule one answer only.
    pub open spec fn format_policy_is_function(
        &self,
        delta: &Delta,
        attribute: &Attribute,
        interval: Interval,
    ) -> bool {
        forall|rule: FormatRule, a: Option<Delta>, b: Option<Delta>|
            #![trigger
                policy_format(self.format_policy(), rule, delta, interval, attribute, a),
                policy_format(self.format_policy(), rule, delta, interval, attribute, b),
            ]
            policy_format(self.format_policy(), rule, delta, interval, attribute, a)
                && policy_format(self.format_policy(), rule, delta, interval, attribute, b)
                ==> answer_view(a) == answer_view(b)
    }

    /// Determinism of `insert`: with a policy that answers from its arguments
    /// alone, two results for the same insertion are the same.
    pub proof fn lemma_insert_deterministic(
        &self,
        delta: &Delta,
        text: &str,
        interval: Interval,
        first: Result<Delta, OTError>,
        second: Result<Delta, OTError>,
    )
        requires
            self.insert_policy_is_function(delta, text, interval),
            resolved(
                self.insert_chain().len(),
                self.insert_relation(delta, text, interval),
                OTErrorCode::ApplyInsertFail,
                first,
            ),
            resolved(
                self.insert_chain().len(),
                self.insert_relation(delta, text, interval),
                OTErrorCode::ApplyInsertFail,
                second,
            ),
        ensures
            result_view(first) == result_view(second),
    {
        let n = self.insert_chain().len();
        let answers = self.insert_relation(delta, text, interval);
        assert forall|i: int, a: Option<Seq<OperationModel>>, b: Option<Seq<OperationModel>>|
            0 <= i < n && #[trigger] answers(i, a) && #[trigger] answers(i, b) implies a == b by {
            let rule = self.insert_chain()[i];
            if rule != InsertRule::DefaultInsertAttribute {
                let x = choose|o: Option<Delta>| #[trigger]
                    policy_insert(
                        self.insert_policy(),
                        rule,
                        delta,
                        interval.spec_size(),
                        text,
                        interval.spec_start(),
                        o,
                    ) && answer_view(o) == a;
                let y = choose|o: Option<Delta>| #[trigger]
                    policy_insert(
                        self.insert_policy(),
                        rule,
                        delta,
                        interval.spec_size(),
                        text,
                        interval.spec_start(),
                        o,
                    ) && answer_view(o) == b;
                assert(answer_view(x) == answer_view(y));
            }
        }
        lemma_resolved_deterministic(n, answers, OTErrorCode::ApplyInsertFail, first, second);
    }

    /// Determinism of `delete`: with a policy that answers from its arguments
    /// alone, two results for the same deletion are the same.
    pub proof fn lemma_delete_deterministic(
        &self,
        delta: &Delta,
        interval: Interval,
        first: Result<Delta, OTError>,
        second: Result<Delta, OTError>,
    )
        requires
            self.delete_policy_is_function(delta, interval),
            resolved(
                self.delete_chain().len(),
                self.delete_relation(delta, interval),
                OTErrorCode::ApplyDeleteFail,
                first,
            ),
            resolved(
                self.delete_chain().len(),
                self.delete_relation(delta, interval),
                OTErrorCode::ApplyDeleteFail,
                second,
            ),
        ensures
            result_view(first) == result_view(second),
    {
        let n = self.delete_chain().len();
        let answers = self.delete_relation(delta, interval);
        assert forall|i: int, a: Option<Seq<OperationModel>>, b: Option<Seq<OperationModel>>|
            0 <= i < n && #[trigger] answers(i, a) && #[trigger] answers(i, b) implies a == b by {
            let rule = self.delete_chain()[i];
            if rule != DeleteRule::DefaultDelete {
                let x = choose|o: Option<Delta>| #[trigger]
                    policy_delete(self.delete_policy(), rule, delta, interval, o) && answer_view(o)
                        == a;
                let y = choose|o: Option<Delta>| #[trigger]
                    policy_delete(self.delete_policy(), rule, delta, interval, o) && answer_view(o)
                        == b;
                assert(answer_view(x) == answer_view(y));
            }
        }
        lemma_resolved_deterministic(n, answers, OTErrorCode::ApplyDeleteFail, first, second);
    }

    /// Determinism of `format`: with a policy that answers from its arguments
    /// alone, two results for the same formatting request are the same.
    pub proof fn lemma_format_deterministic(
        &self,
        delta: &Delta,
        attribute: &Attribute,
        interval: Interval,
        first: Result<Delta, OTError>,
        second: Result<Delta, OTError>,
    )
        requires
            self.format_policy_is_function(delta, attribute, interval),
            resolved(
                self.format_chain().len(),
                self.format_relation(delta, attribute, interval),
                OTErrorCode::ApplyFormatFail,
                first,
            ),
            resolved(
                self.format_chain().len(),
                self.format_relation(delta, attribute, interval),
                OTErrorCode::ApplyFormatFail,
                second,
            ),
        ensures
            result_view(first) == result_view(second),
    {
        let n = self.format_chain().len();
        let answers = self.format_relation(delta, attribute, interval);
        assert forall|i: int, a: Option<Seq<OperationModel>>, b: Option<Seq<OperationModel>>|
            0 <= i < n && #[trigger] answers(i, a) && #[trigger] answers(i, b) implies a == b by {
            let rule = self.format_chain()[i];
            let x = choose|o: Option<Delta>| #[trigger]
                policy_format(self.format_policy(), rule, delta, interval, attribute, o)
                    && answer_view(o) == a;
            let y = choose|o: Option<Delta>| #[trigger]
                policy_format(self.format_policy(), rule, delta, interval, attribute, o)
                    && answer_view(o) == b;
            assert(answer_view(x) == answer_view(y));
        }
        lemma_resolved_deterministic(n, answers, OTErrorCode::ApplyFormatFail, first, second);
    }
}

} // verus!
