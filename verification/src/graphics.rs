//! The graphics state and its stack: the material, the named materials, the
//! textures and the area light that are current at a point of the scene
//! description.

use crate::error::SceneError;
use crate::params::{ParamSet, ParamView};
use crate::text::{same_bytes, views};
use crate::transform::with_top;
use vstd::prelude::*;

verus! {

/// A name bound to an object that was made earlier. The handle is the index
/// of the object in the list that holds all objects of its kind.
#[derive(Debug)]
pub struct Binding {
    pub name: Vec<u8>,
    pub handle: usize,
}

pub struct BindingView {
    pub name: Seq<u8>,
    pub handle: usize,
}

impl View for Binding {
    type V = BindingView;

    open spec fn view(&self) -> BindingView {
        BindingView { name: self.name@, handle: self.handle }
    }
}

/// What is current in one scope.
#[derive(Debug)]
pub struct GraphicsState {
    /// The float textures that are visible, by name.
    pub float_textures: Vec<Binding>,
    /// The spectrum textures that are visible, by name.
    pub spectrum_textures: Vec<Binding>,
    /// The parameters of the current material.
    pub material_params: ParamSet,
    /// The name of the current material; empty until one is set.
    pub material: Vec<u8>,
    /// The named materials that are visible, by name.
    pub named_materials: Vec<Binding>,
    /// The name of the named material that was chosen last; empty until one
    /// is chosen.
    pub current_named_material: Vec<u8>,
    /// The parameters of the current area light.
    pub area_light_params: ParamSet,
    /// The name of the current area light; empty until one is set.
    pub area_light: Vec<u8>,
}

pub struct GraphicsStateView {
    pub float_textures: Seq<BindingView>,
    pub spectrum_textures: Seq<BindingView>,
    pub material_params: Seq<ParamView>,
    pub material: Seq<u8>,
    pub named_materials: Seq<BindingView>,
    pub current_named_material: Seq<u8>,
    pub area_light_params: Seq<ParamView>,
    pub area_light: Seq<u8>,
}

impl View for GraphicsState {
    type V = GraphicsStateView;

    open spec fn view(&self) -> GraphicsStateView {
        GraphicsStateView {
            float_textures: views(self.float_textures@),
            spectrum_textures: views(self.spectrum_textures@),
            material_params: self.material_params@,
            material: self.material@,
            named_materials: views(self.named_materials@),
            current_named_material: self.current_named_material@,
            area_light_params: self.area_light_params@,
            area_light: self.area_light@,
        }
    }
}

/// The state in which nothing is set and nothing is bound.
pub open spec fn initial_graphics() -> GraphicsStateView {
    GraphicsStateView {
        float_textures: Seq::empty(),
        spectrum_textures: Seq::empty(),
        material_params: Seq::empty(),
        material: Seq::empty(),
        named_materials: Seq::empty(),
        current_named_material: Seq::empty(),
        area_light_params: Seq::empty(),
        area_light: Seq::empty(),
    }
}

/// The handle that `name` is bound to: that of the last binding of the
/// name, since a later binding hides an earlier one.
pub open spec fn bound(bindings: Seq<BindingView>, name: Seq<u8>) -> Option<usize>
    decreases bindings.len(),
{
    if bindings.len() == 0 {
        None
    } else if bindings.last().name == name {
        Some(bindings.last().handle)
    } else {
        bound(bindings.drop_last(), name)
    }
}

/// Whether a texture of the given name is visible, of either kind.
pub open spec fn texture_bound(g: GraphicsStateView, name: Seq<u8>) -> bool {
    bound(g.float_textures, name) is Some || bound(g.spectrum_textures, name) is Some
}

/// The handle that `name` is bound to.
pub fn find_binding(bindings: &Vec<Binding>, name: &[u8]) -> (r: Option<usize>)
    ensures
        r == bound(views(bindings@), name@),
{
    let ghost all = views(bindings@);
    let mut i: usize = bindings.len();
    assert(all.subrange(0, i as int) =~= all);
    while i > 0
        invariant
            i <= bindings.len(),
            all == views(bindings@),
            bound(all, name@) == bound(all.subrange(0, i as int), name@),
        decreases i,
    {
        let ghost prefix = all.subrange(0, i as int);
        assert(prefix.last() == bindings[i - 1]@);
        assert(prefix.drop_last() =~= all.subrange(0, i - 1));
        if same_bytes(bindings[i - 1].name.as_slice(), name) {
            return Some(bindings[i - 1].handle);
        }
        i -= 1;
    }
    assert(all.subrange(0, 0).len() == 0);
    None
}

impl Clone for Binding {
    fn clone(&self) -> (r: Self)
        ensures
            r@ == self@,
    {
        Binding { name: self.name.clone(), handle: self.handle }
    }
}

/// A copy of a list of bindings.
pub fn copy_bindings(bindings: &Vec<Binding>) -> (r: Vec<Binding>)
    ensures
        views(r@) == views(bindings@),
{
    let r = bindings.clone();
    assert(views(r@) =~= views(bindings@));
    r
}

impl Default for GraphicsState {
    fn default() -> (r: Self)
        ensures
            r@ == initial_graphics(),
    {
        let r = GraphicsState {
            float_textures: Vec::new(),
            spectrum_textures: Vec::new(),
            material_params: ParamSet::default(),
            material: Vec::new(),
            named_materials: Vec::new(),
            current_named_material: Vec::new(),
            area_light_params: ParamSet::default(),
            area_light: Vec::new(),
        };
        assert(r@.float_textures =~= Seq::empty());
        assert(r@.spectrum_textures =~= Seq::empty());
        assert(r@.named_materials =~= Seq::empty());
        assert(r@.material =~= Seq::empty());
        assert(r@.current_named_material =~= Seq::empty());
        assert(r@.area_light =~= Seq::empty());
        r
    }
}

impl Clone for GraphicsState {
    fn clone(&self) -> (r: Self)
        ensures
            r@ == self@,
    {
        GraphicsState {
            float_textures: copy_bindings(&self.float_textures),
            spectrum_textures: copy_bindings(&self.spectrum_textures),
            material_params: self.material_params.clone(),
            material: self.material.clone(),
            named_materials: copy_bindings(&self.named_materials),
            current_named_material: self.current_named_material.clone(),
            area_light_params: self.area_light_params.clone(),
            area_light: self.area_light.clone(),
        }
    }
}

/// The stack of graphics states: the base frame, and above it one frame
/// for each open attribute scope. The top frame is the current state. The
/// base frame stays, so the stack is never empty.
#[derive(Debug)]
pub struct GraphicsStack {
    base: GraphicsState,
    frames: Vec<GraphicsState>,
}

impl View for GraphicsStack {
    type V = Seq<GraphicsStateView>;

    closed spec fn view(&self) -> Seq<GraphicsStateView> {
        seq![self.base@] + views(self.frames@)
    }
}

impl GraphicsStack {
    /// A stack holds at least its base frame.
    pub proof fn lemma_never_empty(&self)
        ensures
            self@.len() >= 1,
    {
    }

    /// The stack of the base frame alone, in which nothing is set.
    pub fn new() -> (r: GraphicsStack)
        ensures
            r@ == seq![initial_graphics()],
    {
        let r = GraphicsStack { base: GraphicsState::default(), frames: Vec::new() };
        assert(r@ =~= seq![initial_graphics()]);
        r
    }

    /// The number of frames, which is at least one; the largest number
    /// that a `usize` holds, where there are more.
    pub fn depth(&self) -> (r: usize)
        ensures
            r == (if self@.len() <= usize::MAX {
                self@.len() as usize
            } else {
                usize::MAX
            }),
            r >= 1,
    {
        match self.frames.len().checked_add(1) {
            Some(depth) => depth,
            None => usize::MAX,
        }
    }

    /// Whether the base frame is the only one.
    pub fn is_base(&self) -> (r: bool)
        ensures
            r == (self@.len() == 1),
            self@.len() >= 1,
    {
        self.frames.len() == 0
    }

    /// The current state.
    pub fn current(&self) -> (r: &GraphicsState)
        ensures
            r@ == self@.last(),
    {
        if self.frames.len() == 0 {
            &self.base
        } else {
            &self.frames[self.frames.len() - 1]
        }
    }

    /// Opens a scope: a copy of the current state becomes the new top
    /// frame, so that all that is set or bound stays visible.
    pub fn push(&mut self)
        ensures
            final(self)@ == old(self)@.push(old(self)@.last()),
    {
        let top = self.current().clone();
        self.frames.push(top);
        assert(self@ =~= old(self)@.push(old(self)@.last()));
    }

    /// Closes a scope: the top frame is dropped, and with it all that was
    /// set or bound since the scope was opened. Fails, and changes nothing,
    /// where only the base frame is left.
    pub fn pop(&mut self) -> (r: Result<(), SceneError>)
        ensures
            old(self)@.len() > 1 ==> r is Ok && final(self)@ == old(self)@.drop_last(),
            old(self)@.len() <= 1 ==> r == Err::<(), SceneError>(SceneError::StackUnderflow)
                && final(self)@ == old(self)@,
    {
        if self.frames.len() == 0 {
            return Err(SceneError::StackUnderflow);
        }
        self.frames.pop();
        assert(self@ =~= old(self)@.drop_last());
        Ok(())
    }

    /// Replaces the current state.
    pub fn replace_top(&mut self, top: GraphicsState)
        ensures
            final(self)@ == with_top(old(self)@, top@),
    {
        if self.frames.len() == 0 {
            self.base = top;
        } else {
            self.frames.pop();
            self.frames.push(top);
        }
        assert(self@ =~= with_top(old(self)@, top@));
    }

    /// Takes the current state out of the stack and leaves an empty state in
    /// its place, until `replace_top` puts the changed state back.
    fn take_top(&mut self) -> (r: GraphicsState)
        ensures
            r@ == old(self)@.last(),
            final(self)@.len() == old(self)@.len(),
            final(self)@.drop_last() == old(self)@.drop_last(),
    {
        let mut top = GraphicsState::default();
        if self.frames.len() == 0 {
            std::mem::swap(&mut top, &mut self.base);
        } else {
            let last = self.frames.pop().unwrap();
            self.frames.push(top);
            top = last;
        }
        assert(self@.drop_last() =~= old(self)@.drop_last());
        top
    }

    /// Sets the current material.
    pub fn set_material(&mut self, name: Vec<u8>, params: ParamSet)
        ensures
            final(self)@ == with_top(
                old(self)@,
                GraphicsStateView { material: name@, material_params: params@, ..old(self)@.last() },
            ),
    {
        let mut top = self.take_top();
        top.material = name;
        top.material_params = params;
        self.replace_top(top);
    }

    /// Sets the current area light.
    pub fn set_area_light(&mut self, name: Vec<u8>, params: ParamSet)
        ensures
            final(self)@ == with_top(
                old(self)@,
                GraphicsStateView {
                    area_light: name@,
                    area_light_params: params@,
                    ..old(self)@.last()
                },
            ),
    {
        let mut top = self.take_top();
        top.area_light = name;
        top.area_light_params = params;
        self.replace_top(top);
    }

    /// Chooses a named material.
    pub fn set_named_material(&mut self, name: Vec<u8>)
        ensures
            final(self)@ == with_top(
                old(self)@,
                GraphicsStateView { current_named_material: name@, ..old(self)@.last() },
            ),
    {
        let mut top = self.take_top();
        top.current_named_material = name;
        self.replace_top(top);
    }

    /// Binds a name to a named material.
    pub fn bind_material(&mut self, name: Vec<u8>, handle: usize)
        ensures
            final(self)@ == with_top(
                old(self)@,
                GraphicsStateView {
                    named_materials: old(self)@.last().named_materials.push(
                        BindingView { name: name@, handle },
                    ),
                    ..old(self)@.last()
                },
            ),
    {
        let mut top = self.take_top();
        top.named_materials.push(Binding { name, handle });
        assert(views(top.named_materials@) =~= old(self)@.last().named_materials.push(
            BindingView { name: name@, handle },
        ));
        self.replace_top(top);
    }

    /// Binds a name to a float texture.
    pub fn bind_float_texture(&mut self, name: Vec<u8>, handle: usize)
        ensures
            final(self)@ == with_top(
                old(self)@,
                GraphicsStateView {
                    float_textures: old(self)@.last().float_textures.push(
                        BindingView { name: name@, handle },
                    ),
                    ..old(self)@.last()
                },
            ),
    {
        let mut top = self.take_top();
        top.float_textures.push(Binding { name, handle });
        assert(views(top.float_textures@) =~= old(self)@.last().float_textures.push(
            BindingView { name: name@, handle },
        ));
        self.replace_top(top);
    }

    /// Binds a name to a spectrum texture.
    pub fn bind_spectrum_texture(&mut self, name: Vec<u8>, handle: usize)
        ensures
            final(self)@ == with_top(
                old(self)@,
                GraphicsStateView {
                    spectrum_textures: old(self)@.last().spectrum_textures.push(
                        BindingView { name: name@, handle },
                    ),
                    ..old(self)@.last()
                },
            ),
    {
        let mut top = self.take_top();
        top.spectrum_textures.push(Binding { name, handle });
        assert(views(top.spectrum_textures@) =~= old(self)@.last().spectrum_textures.push(
            BindingView { name: name@, handle },
        ));
        self.replace_top(top);
    }
}

} // verus!
