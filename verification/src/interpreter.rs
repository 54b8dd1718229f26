//! The interpreter: the directives of a scene description are taken one by
//! one, in the order of the text. Each of them changes the transform stack
//! or the graphics-state stack, or records an object in the options; a
//! directive that fails changes nothing.
//!
//! A scene description has three phases. Before `WorldBegin` the global
//! options are set and the camera is placed. Between `WorldBegin` and
//! `WorldEnd` the world is described: attributes, materials, textures,
//! lights and shapes. After `WorldEnd` no directive is accepted.

use crate::directive::{Directive, DirectiveView, ObjectKind, Statement, StatementView};
use crate::error::SceneError;
use crate::grammar::parse_spec;
use crate::graphics::{
    bound, find_binding, initial_graphics, texture_bound, BindingView, GraphicsStack,
    GraphicsStateView,
};
use crate::options::{
    default_options, is_option, with_option, Catalog, CatalogView, Light, LightView,
    MaterialRecord, MaterialRecordView, Primitive, PrimitiveView, RenderOptions,
    RenderOptionsView, TextureKind, TextureRecord, TextureRecordView,
};
use crate::params::{
    lit, resolve_all, resolve_all_spec, spells, ParamSet, ParamValue, ParamValueView, ParamView,
    RawParam, RawParamView,
};
use crate::laws::{lemma_run_keeps_handles, primitives_in_range};
use crate::parser::parse_scene;
use crate::text::{listed, views};
use crate::transform::{
    identity_pair, pair_append, transform_arity, with_top, FactorView, TransformSetView,
    TransformStack,
};
use vstd::prelude::*;

verus! {

/// The phase of a scene description.
#[derive(Clone, Copy, Debug, PartialEq, Eq, Structural)]
pub enum Phase {
    /// Before `WorldBegin`.
    Preamble,
    /// Between `WorldBegin` and `WorldEnd`.
    World,
    /// After `WorldEnd`.
    Done,
}

/// The state of an interpreter, as the contracts see it.
pub struct State {
    pub phase: Phase,
    pub transforms: Seq<TransformSetView>,
    pub graphics: Seq<GraphicsStateView>,
    pub options: RenderOptionsView,
    pub catalog: CatalogView,
}

/// A failure and the byte offset of the directive at which it came. For a
/// failure of the grammar, the offset is that of the failure itself.
#[derive(Clone, Copy, Debug, PartialEq, Eq, Structural)]
pub struct Failure {
    pub error: SceneError,
    pub position: usize,
}

/// The state before the first directive.
pub open spec fn initial_state(catalog: CatalogView) -> State {
    State {
        phase: Phase::Preamble,
        transforms: seq![identity_pair()],
        graphics: seq![initial_graphics()],
        options: default_options(),
        catalog,
    }
}

/// Whether every texture that the parameters refer to is visible.
pub open spec fn references_bound(ps: Seq<ParamView>, g: GraphicsStateView) -> bool {
    forall|i: int|
        0 <= i < ps.len() ==> ((#[trigger] ps[i]).value matches ParamValueView::Texture(n)
            ==> texture_bound(g, n))
}

/// What a world directive with a name and resolved parameters does: it sets
/// the current material or area light, binds a new material to its name,
/// or records a light or a primitive with the transform pair, and for a
/// primitive the graphics state, that is current. The renderer must know
/// the name of a new material, of a light and of a shape.
pub open spec fn with_object(s: State, object: ObjectKind, name: Seq<u8>, ps: Seq<ParamView>) -> Result<
    State,
    SceneError,
> {
    let top = s.graphics.last();
    match object {
        ObjectKind::Material => Ok(
            State {
                graphics: with_top(
                    s.graphics,
                    GraphicsStateView { material: name, material_params: ps, ..top },
                ),
                ..s
            },
        ),
        ObjectKind::AreaLightSource => Ok(
            State {
                graphics: with_top(
                    s.graphics,
                    GraphicsStateView { area_light: name, area_light_params: ps, ..top },
                ),
                ..s
            },
        ),
        ObjectKind::MakeNamedMaterial => {
            if !s.catalog.materials.contains(name) {
                Err(SceneError::UnknownObjectName)
            } else {
                Ok(
                    State {
                        options: RenderOptionsView {
                            materials: s.options.materials.push(
                                MaterialRecordView { name, params: ps },
                            ),
                            ..s.options
                        },
                        graphics: with_top(
                            s.graphics,
                            GraphicsStateView {
                                named_materials: top.named_materials.push(
                                    BindingView {
                                        name,
                                        handle: s.options.materials.len() as usize,
                                    },
                                ),
                                ..top
                            },
                        ),
                        ..s
                    },
                )
            }
        },
        ObjectKind::LightSource => {
            if !s.catalog.lights.contains(name) {
                Err(SceneError::UnknownObjectName)
            } else {
                Ok(
                    State {
                        options: RenderOptionsView {
                            lights: s.options.lights.push(
                                LightView {
                                    name,
                                    params: ps,
                                    light_to_world: s.transforms.last(),
                                },
                            ),
                            ..s.options
                        },
                        ..s
                    },
                )
            }
        },
        ObjectKind::Shape => {
            if !s.catalog.shapes.contains(name) {
                Err(SceneError::UnknownObjectName)
            } else {
                Ok(
                    State {
                        options: RenderOptionsView {
                            primitives: s.options.primitives.push(
                                PrimitiveView {
                                    shape: name,
                                    params: ps,
                                    object_to_world: s.transforms.last(),
                                    state: top,
                                },
                            ),
                            ..s.options
                        },
                        ..s
                    },
                )
            }
        },
        _ => Ok(s),
    }
}

/// What a directive with a name and parameters does. An option is legal
/// before the world begins, every other one inside the world. The
/// parameters are resolved, then the textures that they refer to are
/// looked up, then the directive takes effect.
pub open spec fn object_spec(
    s: State,
    object: ObjectKind,
    name: Seq<u8>,
    params: Seq<RawParamView>,
) -> Result<State, SceneError> {
    if is_option(object) && s.phase != Phase::Preamble {
        Err(SceneError::IllegalDirectiveInScope)
    } else if !is_option(object) && s.phase != Phase::World {
        Err(SceneError::IllegalDirectiveInScope)
    } else {
        match resolve_all_spec(params) {
            Err(e) => Err(e),
            Ok(ps) => {
                if !references_bound(ps, s.graphics.last()) {
                    Err(SceneError::UndefinedReference)
                } else if is_option(object) {
                    Ok(
                        State {
                            options: with_option(
                                s.options,
                                object,
                                name,
                                ps,
                                s.transforms.last(),
                            ),
                            ..s
                        },
                    )
                } else {
                    with_object(s, object, name, ps)
                }
            },
        }
    }
}

/// What the values of a texture are, by the type that the directive names.
pub open spec fn texture_kind_of(value_type: Seq<u8>) -> Option<TextureKind> {
    if value_type == lit("float") {
        Some(TextureKind::Float)
    } else if value_type == lit("spectrum") {
        Some(TextureKind::Spectrum)
    } else {
        None
    }
}

/// What a `Texture` directive does: it is legal inside the world, the type
/// of its values must be `float` or `spectrum`, and the renderer must know
/// its class. The texture is recorded, and its name is bound among the
/// textures of its kind.
pub open spec fn texture_spec(
    s: State,
    name: Seq<u8>,
    value_type: Seq<u8>,
    class: Seq<u8>,
    params: Seq<RawParamView>,
) -> Result<State, SceneError> {
    if s.phase != Phase::World {
        Err(SceneError::IllegalDirectiveInScope)
    } else {
        match texture_kind_of(value_type) {
            None => Err(SceneError::UnknownParamType),
            Some(kind) => match resolve_all_spec(params) {
                Err(e) => Err(e),
                Ok(ps) => {
                    let top = s.graphics.last();
                    let binding = BindingView { name, handle: s.options.textures.len() as usize };
                    if !references_bound(ps, top) {
                        Err(SceneError::UndefinedReference)
                    } else if !s.catalog.textures.contains(class) {
                        Err(SceneError::UnknownObjectName)
                    } else {
                        Ok(
                            State {
                                options: RenderOptionsView {
                                    textures: s.options.textures.push(
                                        TextureRecordView { name, kind, class, params: ps },
                                    ),
                                    ..s.options
                                },
                                graphics: with_top(
                                    s.graphics,
                                    match kind {
                                        TextureKind::Float => GraphicsStateView {
                                            float_textures: top.float_textures.push(binding),
                                            ..top
                                        },
                                        TextureKind::Spectrum => GraphicsStateView {
                                            spectrum_textures: top.spectrum_textures.push(binding),
                                            ..top
                                        },
                                    },
                                ),
                                ..s
                            },
                        )
                    }
                },
            },
        }
    }
}

/// What a directive that opens or closes a scope, or a phase, does.
/// `TransformBegin` and `TransformEnd` push and pop the transform stack
/// alone, `AttributeBegin` and `AttributeEnd` both stacks. `WorldBegin`
/// starts the world with a fresh transform stack.
pub open spec fn scope_spec(s: State, d: DirectiveView) -> Result<State, SceneError> {
    match d {
        DirectiveView::TransformBegin => Ok(
            State { transforms: s.transforms.push(s.transforms.last()), ..s },
        ),
        DirectiveView::TransformEnd => {
            if s.transforms.len() <= 1 {
                Err(SceneError::StackUnderflow)
            } else {
                Ok(State { transforms: s.transforms.drop_last(), ..s })
            }
        },
        DirectiveView::AttributeBegin => {
            if s.phase != Phase::World {
                Err(SceneError::IllegalDirectiveInScope)
            } else {
                Ok(
                    State {
                        transforms: s.transforms.push(s.transforms.last()),
                        graphics: s.graphics.push(s.graphics.last()),
                        ..s
                    },
                )
            }
        },
        DirectiveView::AttributeEnd => {
            if s.phase != Phase::World {
                Err(SceneError::IllegalDirectiveInScope)
            } else if s.graphics.len() <= 1 || s.transforms.len() <= 1 {
                Err(SceneError::StackUnderflow)
            } else {
                Ok(
                    State {
                        transforms: s.transforms.drop_last(),
                        graphics: s.graphics.drop_last(),
                        ..s
                    },
                )
            }
        },
        DirectiveView::WorldBegin => {
            if s.phase != Phase::Preamble {
                Err(SceneError::IllegalDirectiveInScope)
            } else {
                Ok(State { phase: Phase::World, transforms: seq![identity_pair()], ..s })
            }
        },
        DirectiveView::WorldEnd => {
            if s.phase != Phase::World {
                Err(SceneError::IllegalDirectiveInScope)
            } else {
                Ok(State { phase: Phase::Done, ..s })
            }
        },
        _ => Ok(s),
    }
}

/// What one directive does to the state, or the failure with which it is
/// refused.
pub open spec fn step_spec(s: State, d: DirectiveView) -> Result<State, SceneError> {
    if s.phase == Phase::Done {
        Err(SceneError::IllegalDirectiveInScope)
    } else {
        match d {
            DirectiveView::Compose { transform, args } => {
                if args.len() != transform_arity(transform) {
                    Err(SceneError::ArityError)
                } else {
                    Ok(
                        State {
                            transforms: with_top(
                                s.transforms,
                                pair_append(
                                    s.transforms.last(),
                                    FactorView { kind: transform, inverse: false, args },
                                ),
                            ),
                            ..s
                        },
                    )
                }
            },
            DirectiveView::Identity => Ok(
                State { transforms: with_top(s.transforms, identity_pair()), ..s },
            ),
            DirectiveView::Object { object, name, params } => object_spec(s, object, name, params),
            DirectiveView::Texture { name, value_type, class, params } => texture_spec(
                s,
                name,
                value_type,
                class,
                params,
            ),
            DirectiveView::NamedMaterial { name } => {
                if s.phase != Phase::World {
                    Err(SceneError::IllegalDirectiveInScope)
                } else if bound(s.graphics.last().named_materials, name) is None {
                    Err(SceneError::UndefinedReference)
                } else {
                    Ok(
                        State {
                            graphics: with_top(
                                s.graphics,
                                GraphicsStateView {
                                    current_named_material: name,
                                    ..s.graphics.last()
                                },
                            ),
                            ..s
                        },
                    )
                }
            },
            DirectiveView::Stub { .. } => Ok(s),
            _ => scope_spec(s, d),
        }
    }
}

/// What the statements from index `i` on do to the state: the state after
/// the last of them, or the failure of the first that is refused.
pub open spec fn run_from(s: State, statements: Seq<StatementView>, i: int) -> Result<
    State,
    Failure,
>
    decreases statements.len() - i,
{
    if 0 <= i < statements.len() {
        match step_spec(s, statements[i].directive) {
            Err(error) => Err(Failure { error, position: statements[i].position }),
            Ok(next) => run_from(next, statements, i + 1),
        }
    } else {
        Ok(s)
    }
}

/// What reading a scene description gives: the options that its directives
/// accumulate, or the first failure.
pub open spec fn load_spec(text: Seq<u8>, catalog: CatalogView) -> Result<
    RenderOptionsView,
    Failure,
> {
    match parse_spec(text) {
        Err(error) => Err(
            Failure {
                error,
                position: match error {
                    SceneError::ParseError { position } => position,
                    _ => 0,
                },
            },
        ),
        Ok(statements) => match run_from(initial_state(catalog), statements, 0) {
            Err(failure) => Err(failure),
            Ok(s) => Ok(s.options),
        },
    }
}

/// The interpreter of a scene description. It is used for one scene: it
/// owns the two stacks and the options that the directives accumulate.
#[derive(Debug)]
pub struct Interpreter {
    phase: Phase,
    transforms: TransformStack,
    graphics: GraphicsStack,
    options: RenderOptions,
    catalog: Catalog,
}

impl View for Interpreter {
    type V = State;

    closed spec fn view(&self) -> State {
        State {
            phase: self.phase,
            transforms: self.transforms@,
            graphics: self.graphics@,
            options: self.options@,
            catalog: self.catalog@,
        }
    }
}

/// What the values of a texture are, by the type that the directive names.
pub fn texture_kind(value_type: &[u8]) -> (r: Option<TextureKind>)
    ensures
        r == texture_kind_of(value_type@),
{
    if spells(value_type, "float") {
        Some(TextureKind::Float)
    } else if spells(value_type, "spectrum") {
        Some(TextureKind::Spectrum)
    } else {
        None
    }
}

/// Whether a directive sets one of the global options.
pub fn option_kind(object: ObjectKind) -> (r: bool)
    ensures
        r == is_option(object),
{
    match object {
        ObjectKind::Camera => true,
        ObjectKind::Sampler => true,
        ObjectKind::Film => true,
        ObjectKind::PixelFilter => true,
        ObjectKind::Integrator => true,
        ObjectKind::Accelerator => true,
        _ => false,
    }
}

impl Interpreter {
    /// Both stacks hold at least their base frames.
    pub proof fn lemma_never_empty(&self)
        ensures
            self@.transforms.len() >= 1,
            self@.graphics.len() >= 1,
    {
        self.transforms.lemma_never_empty();
        self.graphics.lemma_never_empty();
    }

    /// An interpreter before the first directive, for a renderer that can
    /// construct the objects that the catalog names.
    pub fn new(catalog: Catalog) -> (r: Interpreter)
        ensures
            r@ == initial_state(catalog@),
    {
        Interpreter {
            phase: Phase::Preamble,
            transforms: TransformStack::new(),
            graphics: GraphicsStack::new(),
            options: RenderOptions::default(),
            catalog,
        }
    }

    /// The phase that the scene description is in.
    pub fn phase(&self) -> (r: Phase)
        ensures
            r == self@.phase,
    {
        self.phase
    }

    /// What has been accumulated so far.
    pub fn options(&self) -> (r: &RenderOptions)
        ensures
            r@ == self@.options,
    {
        &self.options
    }

    /// The transform stack.
    pub fn transforms(&self) -> (r: &TransformStack)
        ensures
            r@ == self@.transforms,
    {
        &self.transforms
    }

    /// The graphics-state stack.
    pub fn graphics(&self) -> (r: &GraphicsStack)
        ensures
            r@ == self@.graphics,
    {
        &self.graphics
    }

    /// The options, once `WorldEnd` has been read; `None` before that.
    pub fn into_options(self) -> (r: Option<RenderOptions>)
        ensures
            match r {
                Some(o) => self@.phase == Phase::Done && o@ == self@.options,
                None => self@.phase != Phase::Done,
            },
    {
        match self.phase {
            Phase::Done => Some(self.options),
            _ => None,
        }
    }

    /// Whether every texture that the parameters refer to is visible.
    fn references_bound(&self, ps: &ParamSet) -> (r: bool)
        ensures
            r == references_bound(ps@, self@.graphics.last()),
    {
        let top = self.graphics.current();
        let mut i: usize = 0;
        while i < ps.entries.len()
            invariant
                i <= ps.entries.len(),
                top@ == self@.graphics.last(),
                forall|j: int|
                    0 <= j < i ==> ((#[trigger] ps@[j]).value matches ParamValueView::Texture(n)
                        ==> texture_bound(top@, n)),
            decreases ps.entries.len() - i,
        {
            assert(ps@[i as int] == ps.entries[i as int]@);
            match &ps.entries[i].value {
                ParamValue::Texture(n) => {
                    if find_binding(&top.float_textures, n.as_slice()).is_none() && find_binding(
                        &top.spectrum_textures,
                        n.as_slice(),
                    ).is_none() {
                        return false;
                    }
                },
                _ => {},
            }
            i += 1;
        }
        true
    }

    /// A world directive with a name and resolved parameters.
    fn add_object(&mut self, object: ObjectKind, name: &Vec<u8>, ps: ParamSet) -> (r: Result<
        (),
        SceneError,
    >)
        ensures
            match with_object(old(self)@, object, name@, ps@) {
                Ok(s) => r is Ok && final(self)@ == s,
                Err(e) => r == Err::<(), SceneError>(e) && final(self)@ == old(self)@,
            },
    {
        match object {
            ObjectKind::Material => {
                self.graphics.set_material(name.clone(), ps);
                Ok(())
            },
            ObjectKind::AreaLightSource => {
                self.graphics.set_area_light(name.clone(), ps);
                Ok(())
            },
            ObjectKind::MakeNamedMaterial => {
                if !listed(&self.catalog.materials, name.as_slice()) {
                    return Err(SceneError::UnknownObjectName);
                }
                let handle: usize = self.options.add_material(
                    MaterialRecord { name: name.clone(), params: ps },
                );
                self.graphics.bind_material(name.clone(), handle);
                Ok(())
            },
            ObjectKind::LightSource => {
                if !listed(&self.catalog.lights, name.as_slice()) {
                    return Err(SceneError::UnknownObjectName);
                }
                let light_to_world = self.transforms.current().clone();
                self.options.add_light(Light { name: name.clone(), params: ps, light_to_world });
                Ok(())
            },
            ObjectKind::Shape => {
                if !listed(&self.catalog.shapes, name.as_slice()) {
                    return Err(SceneError::UnknownObjectName);
                }
                let object_to_world = self.transforms.current().clone();
                let state = self.graphics.current().clone();
                self.options.add_primitive(
                    Primitive { shape: name.clone(), params: ps, object_to_world, state },
                );
                Ok(())
            },
            _ => Ok(()),
        }
    }

    /// A directive with a name and parameters.
    fn step_object(&mut self, object: ObjectKind, name: &Vec<u8>, params: &Vec<RawParam>) -> (r:
        Result<(), SceneError>)
        ensures
            match object_spec(old(self)@, object, name@, views(params@)) {
                Ok(s) => r is Ok && final(self)@ == s,
                Err(e) => r == Err::<(), SceneError>(e) && final(self)@ == old(self)@,
            },
    {
        let option: bool = option_kind(object);
        if option && self.phase != Phase::Preamble {
            return Err(SceneError::IllegalDirectiveInScope);
        }
        if !option && self.phase != Phase::World {
            return Err(SceneError::IllegalDirectiveInScope);
        }
        let ps: ParamSet = match resolve_all(params) {
            Ok(ps) => ps,
            Err(e) => { return Err(e); },
        };
        if !self.references_bound(&ps) {
            return Err(SceneError::UndefinedReference);
        }
        if option {
            self.options.set_option(object, name.clone(), ps, self.transforms.current());
            Ok(())
        } else {
            self.add_object(object, name, ps)
        }
    }

    /// A `Texture` directive.
    fn step_texture(
        &mut self,
        name: &Vec<u8>,
        value_type: &Vec<u8>,
        class: &Vec<u8>,
        params: &Vec<RawParam>,
    ) -> (r: Result<(), SceneError>)
        ensures
            match texture_spec(old(self)@, name@, value_type@, class@, views(params@)) {
                Ok(s) => r is Ok && final(self)@ == s,
                Err(e) => r == Err::<(), SceneError>(e) && final(self)@ == old(self)@,
            },
    {
        if self.phase != Phase::World {
            return Err(SceneError::IllegalDirectiveInScope);
        }
        let kind: TextureKind = match texture_kind(value_type.as_slice()) {
            Some(kind) => kind,
            None => { return Err(SceneError::UnknownParamType); },
        };
        let ps: ParamSet = match resolve_all(params) {
            Ok(ps) => ps,
            Err(e) => { return Err(e); },
        };
        if !self.references_bound(&ps) {
            return Err(SceneError::UndefinedReference);
        }
        if !listed(&self.catalog.textures, class.as_slice()) {
            return Err(SceneError::UnknownObjectName);
        }
        let handle: usize = self.options.add_texture(
            TextureRecord { name: name.clone(), kind, class: class.clone(), params: ps },
        );
        match kind {
            TextureKind::Float => self.graphics.bind_float_texture(name.clone(), handle),
            TextureKind::Spectrum => self.graphics.bind_spectrum_texture(name.clone(), handle),
        }
        Ok(())
    }

    /// A directive that opens or closes a scope or a phase.
    fn step_scope(&mut self, d: &Directive) -> (r: Result<(), SceneError>)
        ensures
            match scope_spec(old(self)@, d@) {
                Ok(s) => r is Ok && final(self)@ == s,
                Err(e) => r == Err::<(), SceneError>(e) && final(self)@ == old(self)@,
            },
    {
        match d {
            Directive::TransformBegin => {
                self.transforms.push();
                Ok(())
            },
            Directive::TransformEnd => self.transforms.pop(),
            Directive::AttributeBegin => {
                if self.phase != Phase::World {
                    return Err(SceneError::IllegalDirectiveInScope);
                }
                self.transforms.push();
                self.graphics.push();
                Ok(())
            },
            Directive::AttributeEnd => {
                if self.phase != Phase::World {
                    return Err(SceneError::IllegalDirectiveInScope);
                }
                if self.graphics.is_base() || self.transforms.is_base() {
                    return Err(SceneError::StackUnderflow);
                }
                let _ = self.transforms.pop();
                let _ = self.graphics.pop();
                Ok(())
            },
            Directive::WorldBegin => {
                if self.phase != Phase::Preamble {
                    return Err(SceneError::IllegalDirectiveInScope);
                }
                self.transforms.reset();
                self.phase = Phase::World;
                Ok(())
            },
            Directive::WorldEnd => {
                if self.phase != Phase::World {
                    return Err(SceneError::IllegalDirectiveInScope);
                }
                self.phase = Phase::Done;
                Ok(())
            },
            _ => Ok(()),
        }
    }

    /// Interprets one directive. Where the directive is refused, the state
    /// stays as it was.
    pub fn step(&mut self, d: &Directive) -> (r: Result<(), SceneError>)
        ensures
            match step_spec(old(self)@, d@) {
                Ok(s) => r is Ok && final(self)@ == s,
                Err(e) => r == Err::<(), SceneError>(e) && final(self)@ == old(self)@,
            },
    {
        if self.phase == Phase::Done {
            return Err(SceneError::IllegalDirectiveInScope);
        }
        match d {
            Directive::Compose { transform, args } => self.transforms.apply(*transform, args),
            Directive::Identity => {
                self.transforms.identity();
                Ok(())
            },
            Directive::Object { object, name, params } => self.step_object(*object, name, params),
            Directive::Texture { name, value_type, class, params } => self.step_texture(
                name,
                value_type,
                class,
                params,
            ),
            Directive::NamedMaterial { name } => {
                if self.phase != Phase::World {
                    return Err(SceneError::IllegalDirectiveInScope);
                }
                if find_binding(&self.graphics.current().named_materials, name.as_slice()).is_none() {
                    return Err(SceneError::UndefinedReference);
                }
                self.graphics.set_named_material(name.clone());
                Ok(())
            },
            Directive::Stub { .. } => Ok(()),
            _ => self.step_scope(d),
        }
    }

    /// Interprets the statements in order and stops at the first that is
    /// refused.
    pub fn run(self, statements: &Vec<Statement>) -> (r: Result<Interpreter, Failure>)
        ensures
            match run_from(self@, views(statements@), 0) {
                Ok(s) => r matches Ok(i) && i@ == s,
                Err(f) => r matches Err(x) && x == f,
            },
    {
        let mut interpreter = self;
        let mut i: usize = 0;
        while i < statements.len()
            invariant
                i <= statements.len(),
                run_from(self@, views(statements@), 0) == run_from(
                    interpreter@,
                    views(statements@),
                    i as int,
                ),
            decreases statements.len() - i,
        {
            assert(views(statements@)[i as int] == statements[i as int]@);
            match interpreter.step(&statements[i].directive) {
                Ok(()) => {},
                Err(error) => {
                    return Err(Failure { error, position: statements[i].position });
                },
            }
            i += 1;
        }
        Ok(interpreter)
    }
}

/// Reads a scene description for a renderer that can construct the objects
/// that the catalog names: parses the text, interprets its directives and
/// returns the options that they accumulate. The first failure ends the
/// reading, and nothing is returned but the failure. In the options that
/// are returned, every handle of a primitive is an index into the list of
/// the materials or of the textures.
pub fn load_scene(text: &[u8], catalog: Catalog) -> (r: Result<RenderOptions, Failure>)
    ensures
        match load_spec(text@, catalog@) {
            Ok(o) => r matches Ok(v) && v@ == o,
            Err(f) => r matches Err(x) && x == f,
        },
        r matches Ok(v) ==> primitives_in_range(v@),
{
    let statements: Vec<Statement> = match parse_scene(text) {
        Ok(statements) => statements,
        Err(error) => {
            let position: usize = match error {
                SceneError::ParseError { position } => position,
                _ => 0,
            };
            return Err(Failure { error, position });
        },
    };
    match Interpreter::new(catalog).run(&statements) {
        Ok(interpreter) => {
            let materials: usize = interpreter.options.materials.len();
            let textures: usize = interpreter.options.textures.len();
            proof {
                assert(interpreter@.options.materials.len() == materials);
                assert(interpreter@.options.textures.len() == textures);
                lemma_run_keeps_handles(initial_state(catalog@), views(statements@), 0);
            }
            Ok(interpreter.options)
        },
        Err(failure) => Err(failure),
    }
}

} // verus!
