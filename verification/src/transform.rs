//! Transforms and the transform stack.
//!
//! A transform is kept as the chain of factors that the directives composed:
//! it stands for the product of its factors, taken in order. The empty chain
//! is the identity. The inverse of a chain is the chain of the inverted
//! factors in reverse order, so that a transform and its inverse are always
//! held together, and no inverse can go stale. A renderer evaluates a chain
//! to a matrix.
//!
//! Two transforms are tracked side by side, one for the time at which the
//! shutter opens and one for the time at which it closes.

use crate::error::SceneError;
use crate::number::Number;
use crate::text::views;
use vstd::prelude::*;

verus! {

/// The directives that compose a transform into the current one.
#[derive(Clone, Copy, Debug, PartialEq, Eq, Structural)]
pub enum TransformKind {
    /// Eye position, target and up vector: nine numbers.
    LookAt,
    /// An angle and an axis: four numbers.
    Rotate,
    /// Three offsets.
    Translate,
    /// Three factors.
    Scale,
    /// A matrix of sixteen numbers.
    Concat,
}

/// How many numbers a directive of the given kind takes.
pub open spec fn transform_arity(kind: TransformKind) -> nat {
    match kind {
        TransformKind::LookAt => 9,
        TransformKind::Rotate => 4,
        TransformKind::Translate => 3,
        TransformKind::Scale => 3,
        TransformKind::Concat => 16,
    }
}

/// One factor of a transform: the transform that a directive describes, or
/// the inverse of it.
#[derive(Debug)]
pub struct Factor {
    pub kind: TransformKind,
    pub inverse: bool,
    pub args: Vec<Number>,
}

pub struct FactorView {
    pub kind: TransformKind,
    pub inverse: bool,
    pub args: Seq<Seq<u8>>,
}

impl View for Factor {
    type V = FactorView;

    open spec fn view(&self) -> FactorView {
        FactorView { kind: self.kind, inverse: self.inverse, args: views(self.args@) }
    }
}

/// A transform: the product of its factors, in order.
#[derive(Debug)]
pub struct Transform {
    pub factors: Vec<Factor>,
}

impl View for Transform {
    type V = Seq<FactorView>;

    open spec fn view(&self) -> Seq<FactorView> {
        views(self.factors@)
    }
}

/// The current transform at the time the shutter opens and at the time it
/// closes.
#[derive(Debug)]
pub struct TransformSet {
    pub t: [Transform; 2],
}

pub struct TransformSetView {
    pub start: Seq<FactorView>,
    pub end: Seq<FactorView>,
}

impl View for TransformSet {
    type V = TransformSetView;

    open spec fn view(&self) -> TransformSetView {
        TransformSetView { start: self.t[0]@, end: self.t[1]@ }
    }
}

/// The inverse of a factor.
pub open spec fn flip(f: FactorView) -> FactorView {
    FactorView { kind: f.kind, inverse: !f.inverse, args: f.args }
}

/// The inverse of a transform: the inverted factors, last first.
pub open spec fn inverse_of(t: Seq<FactorView>) -> Seq<FactorView> {
    Seq::new(t.len(), |i: int| flip(t[t.len() - 1 - i]))
}

/// The pair of identity transforms.
pub open spec fn identity_pair() -> TransformSetView {
    TransformSetView { start: Seq::empty(), end: Seq::empty() }
}

/// The pair with `f` composed into both of its transforms.
pub open spec fn pair_append(p: TransformSetView, f: FactorView) -> TransformSetView {
    TransformSetView { start: p.start.push(f), end: p.end.push(f) }
}

/// The pair of the inverses.
pub open spec fn pair_inverse(p: TransformSetView) -> TransformSetView {
    TransformSetView { start: inverse_of(p.start), end: inverse_of(p.end) }
}

/// A stack with its top frame replaced.
pub open spec fn with_top<T>(frames: Seq<T>, top: T) -> Seq<T> {
    frames.drop_last().push(top)
}

/// The inverse of the inverse of a transform is the transform itself.
pub proof fn lemma_inverse_involution(t: Seq<FactorView>)
    ensures
        inverse_of(inverse_of(t)) == t,
{
    assert(inverse_of(inverse_of(t)) =~= t);
}

/// The inverse of a product is the product of the inverses in reverse
/// order.
pub proof fn lemma_inverse_of_product(a: Seq<FactorView>, b: Seq<FactorView>)
    ensures
        inverse_of(a + b) == inverse_of(b) + inverse_of(a),
{
    assert(inverse_of(a + b) =~= inverse_of(b) + inverse_of(a));
}

/// The identity is its own inverse, and composing it changes nothing.
pub proof fn lemma_identity_neutral(t: Seq<FactorView>)
    ensures
        inverse_of(Seq::<FactorView>::empty()) == Seq::<FactorView>::empty(),
        t + Seq::<FactorView>::empty() == t,
        Seq::<FactorView>::empty() + t == t,
{
    assert(inverse_of(Seq::<FactorView>::empty()) =~= Seq::<FactorView>::empty());
    assert(t + Seq::<FactorView>::empty() =~= t);
    assert(Seq::<FactorView>::empty() + t =~= t);
}

/// Whether two lists of numbers hold the same literals.
pub fn same_numbers(a: &Vec<Number>, b: &Vec<Number>) -> (r: bool)
    ensures
        r == (views(a@) == views(b@)),
{
    if a.len() != b.len() {
        assert(views(a@).len() != views(b@).len());
        return false;
    }
    let mut i: usize = 0;
    while i < a.len()
        invariant
            i <= a.len(),
            a.len() == b.len(),
            forall|j: int| 0 <= j < i ==> views(a@)[j] == views(b@)[j],
        decreases a.len() - i,
    {
        if !a[i].same(&b[i]) {
            assert(views(a@)[i as int] != views(b@)[i as int]);
            return false;
        }
        i += 1;
    }
    assert(views(a@) =~= views(b@));
    true
}

impl Factor {
    /// Whether two factors are the same.
    pub fn same(&self, other: &Factor) -> (r: bool)
        ensures
            r == (self@ == other@),
    {
        self.kind == other.kind && self.inverse == other.inverse && same_numbers(
            &self.args,
            &other.args,
        )
    }

    /// The inverse of the factor.
    pub fn inverted(&self) -> (r: Factor)
        ensures
            r@ == flip(self@),
    {
        let args = self.args.clone();
        assert(views(args@) =~= views(self.args@));
        Factor { kind: self.kind, inverse: !self.inverse, args }
    }
}

impl Clone for Factor {
    fn clone(&self) -> (r: Self)
        ensures
            r@ == self@,
    {
        let args = self.args.clone();
        assert(views(args@) =~= views(self.args@));
        Factor { kind: self.kind, inverse: self.inverse, args }
    }
}

impl Transform {
    /// The identity.
    pub fn identity() -> (r: Transform)
        ensures
            r@ == Seq::<FactorView>::empty(),
    {
        let r = Transform { factors: Vec::new() };
        assert(r@ =~= Seq::<FactorView>::empty());
        r
    }

    /// Composes `f` into the transform: the product of the transform and
    /// `f`, in this order.
    pub fn append(&mut self, f: Factor)
        ensures
            final(self)@ == old(self)@.push(f@),
    {
        self.factors.push(f);
        assert(self@ =~= old(self)@.push(f@));
    }

    /// The product of the transform and `other`, in this order.
    pub fn compose(&self, other: &Transform) -> (r: Transform)
        ensures
            r@ == self@ + other@,
    {
        let mut r = self.clone();
        let mut i: usize = 0;
        while i < other.factors.len()
            invariant
                i <= other.factors.len(),
                r@ == self@ + other@.subrange(0, i as int),
            decreases other.factors.len() - i,
        {
            let f = other.factors[i].clone();
            r.append(f);
            i += 1;
            assert(r@ =~= self@ + other@.subrange(0, i as int));
        }
        assert(other@.subrange(0, i as int) =~= other@);
        r
    }

    /// The inverse of the transform.
    pub fn inverse(&self) -> (r: Transform)
        ensures
            r@ == inverse_of(self@),
    {
        let n: usize = self.factors.len();
        let mut factors: Vec<Factor> = Vec::new();
        let mut i: usize = 0;
        while i < n
            invariant
                i <= n,
                n == self.factors.len(),
                factors.len() == i,
                forall|j: int| 0 <= j < i ==> (#[trigger] factors[j])@ == flip(self@[n - 1 - j]),
            decreases n - i,
        {
            let f = self.factors[n - 1 - i].inverted();
            factors.push(f);
            i += 1;
        }
        let r = Transform { factors };
        assert(r@ =~= inverse_of(self@));
        r
    }

    /// Whether two transforms have the same factors.
    pub fn same(&self, other: &Transform) -> (r: bool)
        ensures
            r == (self@ == other@),
    {
        if self.factors.len() != other.factors.len() {
            assert(self@.len() != other@.len());
            return false;
        }
        let mut i: usize = 0;
        while i < self.factors.len()
            invariant
                i <= self.factors.len(),
                self.factors.len() == other.factors.len(),
                forall|j: int| 0 <= j < i ==> self@[j] == other@[j],
            decreases self.factors.len() - i,
        {
            if !self.factors[i].same(&other.factors[i]) {
                assert(self@[i as int] != other@[i as int]);
                return false;
            }
            i += 1;
        }
        assert(self@ =~= other@);
        true
    }
}

impl Clone for Transform {
    fn clone(&self) -> (r: Self)
        ensures
            r@ == self@,
    {
        let factors = self.factors.clone();
        assert(views(factors@) =~= views(self.factors@));
        Transform { factors }
    }
}

impl TransformSet {
    /// Whether the transform changes while the shutter is open: whether the
    /// two transforms differ.
    pub fn is_animated(&self) -> (r: bool)
        ensures
            r == (self@.start != self@.end),
    {
        !self.t[0].same(&self.t[1])
    }

    /// The pair with the factor of the given kind and numbers composed into
    /// both transforms.
    pub fn append(&mut self, kind: TransformKind, args: &Vec<Number>)
        ensures
            final(self)@ == pair_append(
                old(self)@,
                FactorView { kind, inverse: false, args: views(args@) },
            ),
    {
        let first = args.clone();
        let second = args.clone();
        assert(views(first@) =~= views(args@));
        assert(views(second@) =~= views(args@));
        self.t[0].append(Factor { kind, inverse: false, args: first });
        self.t[1].append(Factor { kind, inverse: false, args: second });
    }

    /// The pair of the inverses.
    pub fn inverse(&self) -> (r: TransformSet)
        ensures
            r@ == pair_inverse(self@),
    {
        TransformSet { t: [self.t[0].inverse(), self.t[1].inverse()] }
    }
}

impl Default for TransformSet {
    fn default() -> (r: Self)
        ensures
            r@ == identity_pair(),
    {
        TransformSet { t: [Transform::identity(), Transform::identity()] }
    }
}

impl Clone for TransformSet {
    fn clone(&self) -> (r: Self)
        ensures
            r@ == self@,
    {
        TransformSet { t: [self.t[0].clone(), self.t[1].clone()] }
    }
}

/// The stack of transform pairs: the base frame, and above it one frame for
/// each open scope. The top frame is the current pair. The base frame
/// stays, so the stack is never empty.
#[derive(Debug)]
pub struct TransformStack {
    base: TransformSet,
    frames: Vec<TransformSet>,
}

impl View for TransformStack {
    type V = Seq<TransformSetView>;

    closed spec fn view(&self) -> Seq<TransformSetView> {
        seq![self.base@] + views(self.frames@)
    }
}

impl TransformStack {
    /// A stack holds at least its base frame.
    pub proof fn lemma_never_empty(&self)
        ensures
            self@.len() >= 1,
    {
    }

    /// The stack of the base frame alone, which holds the identity.
    pub fn new() -> (r: TransformStack)
        ensures
            r@ == seq![identity_pair()],
    {
        let r = TransformStack { base: TransformSet::default(), frames: Vec::new() };
        assert(r@ =~= seq![identity_pair()]);
        r
    }

    /// The number of frames, which is at least one; the largest number
    /// that a `usize` holds, where there are more.
    pub fn depth(&self) -> (r: usize)
        ensures
            r == (if self@.len() <= usize::MAX {
                self@.len() as usize
            } else {
                usize::MAX
            }),
            r >= 1,
    {
        match self.frames.len().checked_add(1) {
            Some(depth) => depth,
            None => usize::MAX,
        }
    }

    /// Whether the base frame is the only one.
    pub fn is_base(&self) -> (r: bool)
        ensures
            r == (self@.len() == 1),
            self@.len() >= 1,
    {
        self.frames.len() == 0
    }

    /// The current pair.
    pub fn current(&self) -> (r: &TransformSet)
        ensures
            r@ == self@.last(),
    {
        if self.frames.len() == 0 {
            &self.base
        } else {
            &self.frames[self.frames.len() - 1]
        }
    }

    /// Opens a scope: a copy of the current pair becomes the new top frame.
    pub fn push(&mut self)
        ensures
            final(self)@ == old(self)@.push(old(self)@.last()),
    {
        let top = self.current().clone();
        self.frames.push(top);
        assert(self@ =~= old(self)@.push(old(self)@.last()));
    }

    /// Closes a scope: the top frame is dropped and the pair below it is
    /// current again. Fails, and changes nothing, where only the base frame
    /// is left.
    pub fn pop(&mut self) -> (r: Result<(), SceneError>)
        ensures
            old(self)@.len() > 1 ==> r is Ok && final(self)@ == old(self)@.drop_last(),
            old(self)@.len() <= 1 ==> r == Err::<(), SceneError>(SceneError::StackUnderflow)
                && final(self)@ == old(self)@,
    {
        if self.frames.len() == 0 {
            return Err(SceneError::StackUnderflow);
        }
        self.frames.pop();
        assert(self@ =~= old(self)@.drop_last());
        Ok(())
    }

    /// Composes the transform of the given kind and numbers into both
    /// transforms of the current pair. Fails, and changes nothing, where the
    /// kind takes another number of numbers.
    pub fn apply(&mut self, kind: TransformKind, args: &Vec<Number>) -> (r: Result<(), SceneError>)
        ensures
            args@.len() == transform_arity(kind) ==> r is Ok && final(self)@ == with_top(
                old(self)@,
                pair_append(old(self)@.last(), FactorView { kind, inverse: false, args: views(args@) }),
            ),
            args@.len() != transform_arity(kind) ==> r == Err::<(), SceneError>(
                SceneError::ArityError,
            ) && final(self)@ == old(self)@,
    {
        let wanted: usize = match kind {
            TransformKind::LookAt => 9,
            TransformKind::Rotate => 4,
            TransformKind::Translate => 3,
            TransformKind::Scale => 3,
            TransformKind::Concat => 16,
        };
        if args.len() != wanted {
            return Err(SceneError::ArityError);
        }
        let mut top = self.current().clone();
        top.append(kind, args);
        self.replace_top(top);
        Ok(())
    }

    /// Replaces the current pair by the pair of identity transforms.
    pub fn identity(&mut self)
        ensures
            final(self)@ == with_top(old(self)@, identity_pair()),
    {
        self.replace_top(TransformSet::default());
    }

    /// Drops every frame but the base frame, and sets it to the identity.
    pub fn reset(&mut self)
        ensures
            final(self)@ == seq![identity_pair()],
    {
        self.frames.clear();
        self.base = TransformSet::default();
        assert(self@ =~= seq![identity_pair()]);
    }

    fn replace_top(&mut self, top: TransformSet)
        ensures
            final(self)@ == with_top(old(self)@, top@),
    {
        if self.frames.len() == 0 {
            self.base = top;
        } else {
            self.frames.pop();
            self.frames.push(top);
        }
        assert(self@ =~= with_top(old(self)@, top@));
    }
}

impl Clone for TransformStack {
    fn clone(&self) -> (r: Self)
        ensures
            r@ == self@,
    {
        let frames = self.frames.clone();
        assert(views(frames@) =~= views(self.frames@));
        TransformStack { base: self.base.clone(), frames }
    }
}

} // verus!
