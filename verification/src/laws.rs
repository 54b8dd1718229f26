//! What holds of the interpreter for every scene description.

use crate::directive::{keyword_of, DirectiveView, Keyword, StatementView};
use crate::error::SceneError;
use crate::grammar::{
    kind_at, lemma_statement_at, parse_spec, scene_from, statement_at, token_text,
};
use crate::graphics::{bound, BindingView, GraphicsStateView};
use crate::interpreter::{initial_state, run_from, step_spec, Failure, Phase, State};
use crate::options::{CatalogView, RenderOptionsView};
use crate::token::{tokens_of, Token, TokenKind};
use crate::transform::TransformSetView;
use vstd::prelude::*;

verus! {

/// By how many frames a directive raises the transform stack.
pub open spec fn transform_delta(d: DirectiveView) -> int {
    match d {
        DirectiveView::TransformBegin => 1,
        DirectiveView::AttributeBegin => 1,
        DirectiveView::TransformEnd => -1,
        DirectiveView::AttributeEnd => -1,
        _ => 0,
    }
}

/// By how many frames a directive raises the graphics-state stack.
pub open spec fn graphics_delta(d: DirectiveView) -> int {
    match d {
        DirectiveView::AttributeBegin => 1,
        DirectiveView::AttributeEnd => -1,
        _ => 0,
    }
}

/// How many more transform frames are open after the first `n` statements
/// than before them.
pub open spec fn transform_depth(statements: Seq<StatementView>, n: int) -> int
    decreases n,
{
    if n <= 0 {
        0
    } else {
        transform_depth(statements, n - 1) + transform_delta(statements[n - 1].directive)
    }
}

/// How many more graphics frames are open after the first `n` statements
/// than before them.
pub open spec fn graphics_depth(statements: Seq<StatementView>, n: int) -> int
    decreases n,
{
    if n <= 0 {
        0
    } else {
        graphics_depth(statements, n - 1) + graphics_delta(statements[n - 1].directive)
    }
}

/// The statements form one scope of the transform stack: the first opens a
/// frame, the last closes it, and in between the frame stays open.
pub open spec fn is_transform_scope(statements: Seq<StatementView>) -> bool {
    &&& statements.len() >= 2
    &&& forall|k: int| 0 < k < statements.len() ==> #[trigger] transform_depth(statements, k) >= 1
    &&& transform_depth(statements, statements.len() as int) == 0
}

/// The statements form one scope of the graphics-state stack: the first is
/// `AttributeBegin`, the last is the `AttributeEnd` that matches it.
pub open spec fn is_graphics_scope(statements: Seq<StatementView>) -> bool {
    &&& statements.len() >= 2
    &&& forall|k: int| 0 < k < statements.len() ==> #[trigger] graphics_depth(statements, k) >= 1
    &&& graphics_depth(statements, statements.len() as int) == 0
}

/// What one directive does to the transform stack: `WorldBegin` leaves one
/// frame; every other directive adds or drops at most the top frame and
/// leaves the frames below the top as they are.
pub proof fn lemma_step_transforms(s: State, d: DirectiveView)
    requires
        s.transforms.len() >= 1,
        step_spec(s, d) is Ok,
    ensures
        ({
            let n = step_spec(s, d)->Ok_0;
            &&& n.transforms.len() >= 1
            &&& d is WorldBegin ==> n.transforms.len() == 1
            &&& !(d is WorldBegin) ==> n.transforms.len() == s.transforms.len() + transform_delta(d)
            &&& !(d is WorldBegin) ==> forall|j: int|
                0 <= j < s.transforms.len() - 1 ==> n.transforms[j] == s.transforms[j]
            &&& transform_delta(d) == 1 ==> n.transforms[s.transforms.len() - 1]
                == s.transforms.last()
        }),
{
}

/// What one directive does to the graphics-state stack: it adds or drops
/// at most the top frame and leaves the frames below the top as they are.
pub proof fn lemma_step_graphics(s: State, d: DirectiveView)
    requires
        s.graphics.len() >= 1,
        step_spec(s, d) is Ok,
    ensures
        ({
            let n = step_spec(s, d)->Ok_0;
            &&& n.graphics.len() >= 1
            &&& n.graphics.len() == s.graphics.len() + graphics_delta(d)
            &&& forall|j: int| 0 <= j < s.graphics.len() - 1 ==> n.graphics[j] == s.graphics[j]
            &&& graphics_delta(d) == 1 ==> n.graphics[s.graphics.len() - 1] == s.graphics.last()
        }),
{
}

proof fn lemma_transforms_restored_from(
    base: Seq<TransformSetView>,
    cur: State,
    statements: Seq<StatementView>,
    i: int,
)
    requires
        is_transform_scope(statements),
        0 <= i <= statements.len(),
        base.len() >= 1,
        cur.transforms.len() >= 1,
        run_from(cur, statements, i) is Ok,
        ({
            ||| (cur.transforms.len() == base.len() + transform_depth(statements, i) && forall|
                j: int,
            |
                0 <= j < base.len() ==> cur.transforms[j] == base[j])
            ||| (i > 0 && cur.transforms.len() <= transform_depth(statements, i))
        }),
    ensures
        run_from(cur, statements, i)->Ok_0.transforms == base,
    decreases statements.len() - i,
{
    if i == statements.len() {
        assert(cur.transforms =~= base);
    } else {
        let d = statements[i].directive;
        let n = step_spec(cur, d)->Ok_0;
        lemma_step_transforms(cur, d);
        assert(transform_depth(statements, i + 1) == transform_depth(statements, i)
            + transform_delta(d));
        if i > 0 {
            assert(transform_depth(statements, i) >= 1);
        }
        if i + 1 < statements.len() {
            assert(transform_depth(statements, i + 1) >= 1);
        }
        lemma_transforms_restored_from(base, n, statements, i + 1);
    }
}

proof fn lemma_graphics_restored_from(
    base: Seq<GraphicsStateView>,
    cur: State,
    statements: Seq<StatementView>,
    i: int,
)
    requires
        is_graphics_scope(statements),
        0 <= i <= statements.len(),
        base.len() >= 1,
        run_from(cur, statements, i) is Ok,
        cur.graphics.len() == base.len() + graphics_depth(statements, i),
        forall|j: int| 0 <= j < base.len() ==> cur.graphics[j] == base[j],
    ensures
        run_from(cur, statements, i)->Ok_0.graphics == base,
    decreases statements.len() - i,
{
    if i == statements.len() {
        assert(cur.graphics =~= base);
    } else {
        let d = statements[i].directive;
        let n = step_spec(cur, d)->Ok_0;
        lemma_step_graphics(cur, d);
        assert(graphics_depth(statements, i + 1) == graphics_depth(statements, i) + graphics_delta(
            d,
        ));
        if i > 0 {
            assert(graphics_depth(statements, i) >= 1);
        }
        if i + 1 < statements.len() {
            assert(graphics_depth(statements, i + 1) >= 1);
        }
        lemma_graphics_restored_from(base, n, statements, i + 1);
    }
}

/// Stack balance, for transforms: whatever the statements of a scope do
/// inside it, the transform stack after the scope is the stack before it.
pub proof fn lemma_transform_scope_restores(s: State, statements: Seq<StatementView>)
    requires
        s.transforms.len() >= 1,
        is_transform_scope(statements),
        run_from(s, statements, 0) is Ok,
    ensures
        run_from(s, statements, 0)->Ok_0.transforms == s.transforms,
{
    lemma_transforms_restored_from(s.transforms, s, statements, 0);
}

/// Stack balance, for the graphics state: whatever the statements between
/// an `AttributeBegin` and its `AttributeEnd` set or bind, the graphics
/// stack after the scope is the stack before it.
pub proof fn lemma_graphics_scope_restores(s: State, statements: Seq<StatementView>)
    requires
        s.graphics.len() >= 1,
        is_graphics_scope(statements),
        run_from(s, statements, 0) is Ok,
    ensures
        run_from(s, statements, 0)->Ok_0.graphics == s.graphics,
{
    lemma_graphics_restored_from(s.graphics, s, statements, 0);
}

/// Scoped visibility: after a scope, a name of a material is bound to what
/// it was bound to before the scope. What the scope bound is gone, and what
/// was bound before it is still there.
pub proof fn lemma_scope_keeps_bindings(s: State, statements: Seq<StatementView>, name: Seq<u8>)
    requires
        s.graphics.len() >= 1,
        is_graphics_scope(statements),
        run_from(s, statements, 0) is Ok,
    ensures
        bound(run_from(s, statements, 0)->Ok_0.graphics.last().named_materials, name) == bound(
            s.graphics.last().named_materials,
            name,
        ),
        bound(run_from(s, statements, 0)->Ok_0.graphics.last().float_textures, name) == bound(
            s.graphics.last().float_textures,
            name,
        ),
        bound(run_from(s, statements, 0)->Ok_0.graphics.last().spectrum_textures, name) == bound(
            s.graphics.last().spectrum_textures,
            name,
        ),
{
    lemma_graphics_scope_restores(s, statements);
}

/// Scoped visibility, inwards: what is set or bound before a scope is
/// opened is current inside it.
pub proof fn lemma_begin_copies_the_state(s: State)
    requires
        s.graphics.len() >= 1,
        s.transforms.len() >= 1,
        step_spec(s, DirectiveView::AttributeBegin) is Ok,
    ensures
        step_spec(s, DirectiveView::AttributeBegin)->Ok_0.graphics.last() == s.graphics.last(),
        step_spec(s, DirectiveView::AttributeBegin)->Ok_0.transforms.last() == s.transforms.last(),
{
}

/// Push then pop is the identity.
pub proof fn lemma_begin_end_is_identity(s: State)
    requires
        s.graphics.len() >= 1,
        s.transforms.len() >= 1,
        s.phase == Phase::World,
    ensures
        step_spec(s, DirectiveView::AttributeBegin) is Ok,
        step_spec(step_spec(s, DirectiveView::AttributeBegin)->Ok_0, DirectiveView::AttributeEnd)
            == Ok::<State, SceneError>(s),
        step_spec(step_spec(s, DirectiveView::TransformBegin)->Ok_0, DirectiveView::TransformEnd)
            == Ok::<State, SceneError>(s),
{
    let a = step_spec(s, DirectiveView::AttributeBegin)->Ok_0;
    assert(a.transforms.drop_last() =~= s.transforms);
    assert(a.graphics.drop_last() =~= s.graphics);
    let t = step_spec(s, DirectiveView::TransformBegin)->Ok_0;
    assert(t.transforms.drop_last() =~= s.transforms);
}

/// Whether `a` is the start of `b`.
pub open spec fn starts<T>(a: Seq<T>, b: Seq<T>) -> bool {
    a.len() <= b.len() && forall|j: int| 0 <= j < a.len() ==> a[j] == b[j]
}

/// What is accumulated stays: no directive changes or drops a light, a
/// primitive, a material or a texture that was recorded earlier, and none
/// changes the catalog.
pub proof fn lemma_step_accumulates(s: State, d: DirectiveView)
    requires
        step_spec(s, d) is Ok,
    ensures
        ({
            let n = step_spec(s, d)->Ok_0;
            &&& starts(s.options.primitives, n.options.primitives)
            &&& starts(s.options.lights, n.options.lights)
            &&& starts(s.options.materials, n.options.materials)
            &&& starts(s.options.textures, n.options.textures)
            &&& n.catalog == s.catalog
        }),
{
}

/// Binding at declaration: a primitive that is recorded is the same in the
/// state after any further statements, at the same place in the list.
pub proof fn lemma_run_accumulates(s: State, statements: Seq<StatementView>, i: int)
    requires
        0 <= i <= statements.len(),
        run_from(s, statements, i) is Ok,
    ensures
        ({
            let n = run_from(s, statements, i)->Ok_0;
            &&& starts(s.options.primitives, n.options.primitives)
            &&& starts(s.options.lights, n.options.lights)
            &&& starts(s.options.materials, n.options.materials)
            &&& starts(s.options.textures, n.options.textures)
            &&& n.catalog == s.catalog
        }),
    decreases statements.len() - i,
{
    if i < statements.len() {
        let d = statements[i].directive;
        lemma_step_accumulates(s, d);
        lemma_run_accumulates(step_spec(s, d)->Ok_0, statements, i + 1);
    }
}

/// The state in which statement `m` is reached from statement `i`, where
/// every statement before it is accepted.
pub open spec fn reaches(s: State, statements: Seq<StatementView>, i: int, m: int) -> Option<State>
    decreases m - i,
{
    if i >= m {
        Some(s)
    } else {
        match step_spec(s, statements[i].directive) {
            Err(_) => None,
            Ok(next) => reaches(next, statements, i + 1, m),
        }
    }
}

proof fn lemma_unmatched_end_from(cur: State, statements: Seq<StatementView>, i: int, m: int)
    requires
        0 <= i <= m < statements.len(),
        cur.phase == Phase::World,
        cur.graphics.len() == 1 + graphics_depth(statements, i),
        cur.graphics.len() >= 1,
        cur.transforms.len() >= 1,
        statements[m].directive == DirectiveView::AttributeEnd,
        graphics_depth(statements, m) == 0,
        forall|k: int| i <= k < m ==> statements[k].directive != DirectiveView::WorldEnd,
        reaches(cur, statements, i, m) is Some,
    ensures
        run_from(cur, statements, i) == Err::<State, Failure>(
            Failure { error: SceneError::StackUnderflow, position: statements[m].position },
        ),
    decreases m - i,
{
    if i < m {
        let d = statements[i].directive;
        let n = step_spec(cur, d)->Ok_0;
        lemma_step_graphics(cur, d);
        lemma_step_transforms(cur, d);
        assert(graphics_depth(statements, i + 1) == graphics_depth(statements, i) + graphics_delta(
            d,
        ));
        lemma_unmatched_end_from(n, statements, i + 1, m);
    }
}

/// Underflow: inside the world, an `AttributeEnd` that no `AttributeBegin`
/// matches is refused with `StackUnderflow`, and the run ends there. The
/// statements before it are those that the run accepts; `WorldEnd` is not
/// among them.
pub proof fn lemma_unmatched_end_underflows(s: State, statements: Seq<StatementView>, m: int)
    requires
        s.phase == Phase::World,
        s.graphics.len() == 1,
        s.transforms.len() >= 1,
        0 <= m < statements.len(),
        statements[m].directive == DirectiveView::AttributeEnd,
        graphics_depth(statements, m) == 0,
        forall|k: int| 0 <= k < m ==> statements[k].directive != DirectiveView::WorldEnd,
        reaches(s, statements, 0, m) is Some,
    ensures
        run_from(s, statements, 0) == Err::<State, Failure>(
            Failure { error: SceneError::StackUnderflow, position: statements[m].position },
        ),
{
    lemma_unmatched_end_from(s, statements, 0, m);
}

/// The statements that the grammar accepts end with `WorldEnd`.
pub proof fn lemma_scene_ends_with_world_end(
    s: Seq<u8>,
    toks: Seq<Token>,
    k: int,
    acc: Seq<StatementView>,
)
    requires
        0 <= k,
        scene_from(s, toks, k, acc) is Ok,
    ensures
        scene_from(s, toks, k, acc)->Ok_0.len() >= 1,
        scene_from(s, toks, k, acc)->Ok_0.last().directive == DirectiveView::WorldEnd,
    decreases toks.len() - k,
{
    reveal(scene_from);
    reveal(statement_at);
    if kind_at(toks, k) == TokenKind::Word {
        match keyword_of(token_text(s, toks[k])) {
            None => {},
            Some(keyword) => {
                lemma_statement_at(s, toks, k + 1, keyword);
                match statement_at(s, toks, k + 1, keyword) {
                    Err(_) => {},
                    Ok((directive, e)) => {
                        let all = acc.push(StatementView { position: toks[k].start, directive });
                        if keyword != Keyword::WorldEnd {
                            lemma_scene_ends_with_world_end(s, toks, e, all);
                        }
                    },
                }
            },
        }
    }
}

proof fn lemma_run_ends_done(s: State, statements: Seq<StatementView>, i: int)
    requires
        0 <= i < statements.len(),
        statements.last().directive == DirectiveView::WorldEnd,
        run_from(s, statements, i) is Ok,
    ensures
        run_from(s, statements, i)->Ok_0.phase == Phase::Done,
    decreases statements.len() - i,
{
    let n = step_spec(s, statements[i].directive)->Ok_0;
    if i + 1 < statements.len() {
        lemma_run_ends_done(n, statements, i + 1);
    } else {
        assert(run_from(n, statements, i + 1) == Ok::<State, Failure>(n));
    }
}

/// A scene description that is read without a failure is complete: its
/// last directive is `WorldEnd`, and the interpreter is done.
pub proof fn lemma_loaded_scene_is_complete(text: Seq<u8>, catalog: CatalogView)
    requires
        parse_spec(text) is Ok,
        run_from(initial_state(catalog), parse_spec(text)->Ok_0, 0) is Ok,
    ensures
        parse_spec(text)->Ok_0.len() >= 1,
        parse_spec(text)->Ok_0.last().directive == DirectiveView::WorldEnd,
        run_from(initial_state(catalog), parse_spec(text)->Ok_0, 0)->Ok_0.phase == Phase::Done,
{
    lemma_scene_ends_with_world_end(text, tokens_of(text), 0, Seq::empty());
    lemma_run_ends_done(initial_state(catalog), parse_spec(text)->Ok_0, 0);
}

/// Whether every handle of the bindings is below `n`.
pub open spec fn bindings_in_range(bindings: Seq<BindingView>, n: nat) -> bool {
    forall|i: int| 0 <= i < bindings.len() ==> (#[trigger] bindings[i]).handle < n
}

/// Whether every handle that a graphics state holds refers to an object
/// that the options hold.
pub open spec fn frame_in_range(g: GraphicsStateView, o: RenderOptionsView) -> bool {
    &&& bindings_in_range(g.named_materials, o.materials.len())
    &&& bindings_in_range(g.float_textures, o.textures.len())
    &&& bindings_in_range(g.spectrum_textures, o.textures.len())
}

/// Whether every handle that a primitive holds refers to an object that
/// the options hold.
pub open spec fn primitives_in_range(o: RenderOptionsView) -> bool {
    forall|i: int|
        0 <= i < o.primitives.len() ==> frame_in_range((#[trigger] o.primitives[i]).state, o)
}

/// Whether every handle of the state, in a frame of the graphics stack or
/// in a primitive, refers to an object that the options hold.
pub open spec fn handles_in_range(s: State) -> bool {
    &&& forall|i: int| 0 <= i < s.graphics.len() ==> frame_in_range(#[trigger] s.graphics[i], s.options)
    &&& primitives_in_range(s.options)
}

/// Handles stay valid: a directive binds a name to the object that it has
/// just recorded, and no object is ever dropped.
pub proof fn lemma_step_keeps_handles(s: State, d: DirectiveView)
    requires
        s.graphics.len() >= 1,
        handles_in_range(s),
        step_spec(s, d) is Ok,
        step_spec(s, d)->Ok_0.options.materials.len() <= usize::MAX,
        step_spec(s, d)->Ok_0.options.textures.len() <= usize::MAX,
    ensures
        handles_in_range(step_spec(s, d)->Ok_0),
{
    let n = step_spec(s, d)->Ok_0;
    lemma_step_graphics(s, d);
    lemma_step_accumulates(s, d);
    assert(frame_in_range(s.graphics.last(), s.options));
    assert forall|i: int| 0 <= i < n.graphics.len() implies frame_in_range(
        #[trigger] n.graphics[i],
        n.options,
    ) by {
        if i < s.graphics.len() - 1 {
            assert(frame_in_range(s.graphics[i], s.options));
        }
    }
    assert forall|i: int| 0 <= i < n.options.primitives.len() implies frame_in_range(
        (#[trigger] n.options.primitives[i]).state,
        n.options,
    ) by {
        if i < s.options.primitives.len() {
            assert(frame_in_range(s.options.primitives[i].state, s.options));
        }
    }
}

/// Handles stay valid over a run.
pub proof fn lemma_run_keeps_handles(s: State, statements: Seq<StatementView>, i: int)
    requires
        0 <= i <= statements.len(),
        s.graphics.len() >= 1,
        handles_in_range(s),
        run_from(s, statements, i) is Ok,
        run_from(s, statements, i)->Ok_0.options.materials.len() <= usize::MAX,
        run_from(s, statements, i)->Ok_0.options.textures.len() <= usize::MAX,
    ensures
        handles_in_range(run_from(s, statements, i)->Ok_0),
    decreases statements.len() - i,
{
    if i < statements.len() {
        let d = statements[i].directive;
        let n = step_spec(s, d)->Ok_0;
        lemma_run_accumulates(n, statements, i + 1);
        lemma_step_graphics(s, d);
        lemma_step_keeps_handles(s, d);
        lemma_run_keeps_handles(n, statements, i + 1);
    }
}

} // verus!
