//! Deltas: ordered sequences of retain, insert and delete operations, and the
//! normalization that strips what a delta leaves untouched at its end.

use vstd::prelude::*;
use crate::attribute::{attributes_view, clone_attributes, Attribute, AttributeModel};

verus! {

/// One step of a delta.
#[derive(Debug, PartialEq, Eq)]
pub enum Operation {
    /// Remove the next `n` characters.
    Delete(usize),
    /// Keep the next `n` characters, applying the attributes to them.
    Retain(usize, Vec<Attribute>),
    /// Add text that carries the attributes.
    Insert(String, Vec<Attribute>),
}

/// Mathematical content of an [`Operation`].
pub enum OperationModel {
    Delete(nat),
    Retain(nat, Seq<AttributeModel>),
    Insert(Seq<char>, Seq<AttributeModel>),
}

impl View for Operation {
    type V = OperationModel;

    open spec fn view(&self) -> OperationModel {
        match self {
            Operation::Delete(n) => OperationModel::Delete(*n as nat),
            Operation::Retain(n, attributes) => OperationModel::Retain(
                *n as nat,
                attributes_view(attributes@),
            ),
            Operation::Insert(s, attributes) => OperationModel::Insert(
                s@,
                attributes_view(attributes@),
            ),
        }
    }
}

impl Clone for Operation {
    fn clone(&self) -> (r: Operation)
        ensures
            r@ == self@,
    {
        match self {
            Operation::Delete(n) => Operation::Delete(*n),
            Operation::Retain(n, attributes) => Operation::Retain(*n, clone_attributes(attributes)),
            Operation::Insert(s, attributes) => Operation::Insert(
                s.clone(),
                clone_attributes(attributes),
            ),
        }
    }
}

/// A retain that applies no attribute: it changes nothing.
pub open spec fn is_plain_retain(op: OperationModel) -> bool {
    op matches OperationModel::Retain(_, attributes) && attributes.len() == 0
}

/// The operations that remain once every plain retain at the end is removed.
pub open spec fn trim_spec(ops: Seq<OperationModel>) -> Seq<OperationModel>
    decreases ops.len(),
{
    if ops.len() > 0 && is_plain_retain(ops.last()) {
        trim_spec(ops.drop_last())
    } else {
        ops
    }
}

/// `ops` followed by a plain retain of `n`, or `ops` itself when `n` is zero.
pub open spec fn retain_spec(ops: Seq<OperationModel>, n: nat) -> Seq<OperationModel> {
    if n == 0 {
        ops
    } else {
        ops.push(OperationModel::Retain(n, Seq::empty()))
    }
}

/// `ops` followed by an insert of `text` without attributes, or `ops` itself
/// when `text` is empty.
pub open spec fn insert_spec(ops: Seq<OperationModel>, text: Seq<char>) -> Seq<OperationModel> {
    if text.len() == 0 {
        ops
    } else {
        ops.push(OperationModel::Insert(text, Seq::empty()))
    }
}

/// `ops` followed by a delete of `n`, or `ops` itself when `n` is zero.
pub open spec fn delete_spec(ops: Seq<OperationModel>, n: nat) -> Seq<OperationModel> {
    if n == 0 {
        ops
    } else {
        ops.push(OperationModel::Delete(n))
    }
}

/// An ordered sequence of operations.
#[derive(Debug, PartialEq, Eq)]
pub struct Delta {
    pub ops: Vec<Operation>,
}

impl View for Delta {
    type V = Seq<OperationModel>;

    open spec fn view(&self) -> Seq<OperationModel> {
        Seq::new(self.ops@.len(), |i: int| self.ops@[i]@)
    }
}

impl Clone for Delta {
    fn clone(&self) -> (r: Delta)
        ensures
            r@ == self@,
    {
        let mut ops: Vec<Operation> = Vec::new();
        let mut i: usize = 0;
        while i < self.ops.len()
            invariant
                i <= self.ops.len(),
                ops.len() == i,
                forall|j: int| 0 <= j < i ==> ops[j]@ == self.ops[j]@,
            decreases self.ops.len() - i,
        {
            ops.push(self.ops[i].clone());
            i += 1;
        }
        let r = Delta { ops };
        assert(r@ =~= self@);
        r
    }
}

impl Delta {
    /// The delta without operations.
    pub fn new() -> (r: Delta)
        ensures
            r@ == Seq::<OperationModel>::empty(),
    {
        let r = Delta { ops: Vec::new() };
        assert(r@ =~= Seq::<OperationModel>::empty());
        r
    }

    /// Number of operations.
    pub fn len(&self) -> (r: usize)
        ensures
            r == self@.len(),
    {
        self.ops.len()
    }

    /// Whether the delta has no operation.
    pub fn is_empty(&self) -> (r: bool)
        ensures
            r == (self@.len() == 0),
    {
        self.ops.len() == 0
    }

    /// Appends a plain retain of `n`; does nothing when `n` is zero.
    pub fn retain(&mut self, n: usize)
        ensures
            final(self)@ == retain_spec(old(self)@, n as nat),
    {
        if n != 0 {
            self.ops.push(Operation::Retain(n, Vec::new()));
            assert(self@ =~= retain_spec(old(self)@, n as nat)) by {
                assert(attributes_view(Seq::<Attribute>::empty()) =~= Seq::<AttributeModel>::empty());
            }
        }
    }

    /// Appends an insert of `text` without attributes; does nothing when
    /// `text` is empty.
    pub fn insert(&mut self, text: &str)
        ensures
            final(self)@ == insert_spec(old(self)@, text@),
    {
        if !text.is_empty() {
            self.ops.push(Operation::Insert(text.to_owned(), Vec::new()));
            assert(self@ =~= insert_spec(old(self)@, text@)) by {
                assert(attributes_view(Seq::<Attribute>::empty()) =~= Seq::<AttributeModel>::empty());
            }
        }
    }

    /// Appends a delete of `n`; does nothing when `n` is zero.
    pub fn delete(&mut self, n: usize)
        ensures
            final(self)@ == delete_spec(old(self)@, n as nat),
    {
        if n != 0 {
            self.ops.push(Operation::Delete(n));
            assert(self@ =~= delete_spec(old(self)@, n as nat));
        }
    }

    /// Whether the last operation is a retain without attributes.
    pub fn ends_in_plain_retain(&self) -> (r: bool)
        ensures
            r == (self@.len() > 0 && is_plain_retain(self@.last())),
    {
        let n = self.ops.len();
        if n == 0 {
            return false;
        }
        match &self.ops[n - 1] {
            Operation::Retain(_, attributes) => attributes.len() == 0,
            _ => false,
        }
    }
}

/// Removes every plain retain at the end of `delta`.
pub fn trim(delta: &mut Delta)
    ensures
        final(delta)@ == trim_spec(old(delta)@),
{
    while delta.ends_in_plain_retain()
        invariant
            trim_spec(delta@) == trim_spec(old(delta)@),
        decreases delta@.len(),
    {
        let ghost before = delta@;
        delta.ops.pop();
        assert(delta@ =~= before.drop_last());
    }
}

/// What trimming keeps is a prefix of the operations, it does not end in a
/// plain retain, and everything after it is a plain retain.
pub proof fn lemma_trim_keeps_prefix(ops: Seq<OperationModel>)
    ensures
        trim_spec(ops).len() <= ops.len(),
        trim_spec(ops) == ops.subrange(0, trim_spec(ops).len() as int),
        trim_spec(ops).len() > 0 ==> !is_plain_retain(trim_spec(ops).last()),
        forall|i: int| trim_spec(ops).len() <= i < ops.len() ==> is_plain_retain(#[trigger] ops[i]),
    decreases ops.len(),
{
    if ops.len() > 0 && is_plain_retain(ops.last()) {
        lemma_trim_keeps_prefix(ops.drop_last());
        let kept = trim_spec(ops.drop_last());
        assert(kept =~= ops.subrange(0, kept.len() as int));
        assert forall|i: int| kept.len() <= i < ops.len() implies is_plain_retain(
            #[trigger] ops[i],
        ) by {
            if i < ops.len() - 1 {
                assert(ops[i] == ops.drop_last()[i]);
            }
        }
    } else {
        assert(ops =~= ops.subrange(0, ops.len() as int));
    }
}

/// Trimming a delta that does not end in a plain retain changes nothing.
pub proof fn lemma_trim_fixed_point(ops: Seq<OperationModel>)
    requires
        ops.len() == 0 || !is_plain_retain(ops.last()),
    ensures
        trim_spec(ops) == ops,
{
}

/// Trimming twice gives what trimming once gives.
pub proof fn lemma_trim_idempotent(ops: Seq<OperationModel>)
    ensures
        trim_spec(trim_spec(ops)) == trim_spec(ops),
{
    lemma_trim_keeps_prefix(ops);
    lemma_trim_fixed_point(trim_spec(ops));
}

} // verus!
