//! What the interpreter accumulates for the renderer: the global options,
//! the lights, the primitives, and the materials and textures that names
//! were bound to.

use crate::directive::ObjectKind;
use crate::graphics::{GraphicsState, GraphicsStateView};
use crate::number::Number;
use crate::params::{lit, ParamSet, ParamView};
use crate::text::views;
use crate::transform::{identity_pair, pair_inverse, TransformSet, TransformSetView};
use vstd::prelude::*;
use vstd::string::StrSliceExecFns;

verus! {

/// A light: its name, its parameters and the transform pair that was
/// current where it was declared.
#[derive(Debug)]
pub struct Light {
    pub name: Vec<u8>,
    pub params: ParamSet,
    pub light_to_world: TransformSet,
}

pub struct LightView {
    pub name: Seq<u8>,
    pub params: Seq<ParamView>,
    pub light_to_world: TransformSetView,
}

impl View for Light {
    type V = LightView;

    open spec fn view(&self) -> LightView {
        LightView {
            name: self.name@,
            params: self.params@,
            light_to_world: self.light_to_world@,
        }
    }
}

/// A primitive: a shape bound to the transform pair and to the graphics
/// state that were current where the shape was declared.
#[derive(Debug)]
pub struct Primitive {
    pub shape: Vec<u8>,
    pub params: ParamSet,
    pub object_to_world: TransformSet,
    pub state: GraphicsState,
}

pub struct PrimitiveView {
    pub shape: Seq<u8>,
    pub params: Seq<ParamView>,
    pub object_to_world: TransformSetView,
    pub state: GraphicsStateView,
}

impl View for Primitive {
    type V = PrimitiveView;

    open spec fn view(&self) -> PrimitiveView {
        PrimitiveView {
            shape: self.shape@,
            params: self.params@,
            object_to_world: self.object_to_world@,
            state: self.state@,
        }
    }
}

/// A material that a name was bound to.
#[derive(Debug)]
pub struct MaterialRecord {
    pub name: Vec<u8>,
    pub params: ParamSet,
}

pub struct MaterialRecordView {
    pub name: Seq<u8>,
    pub params: Seq<ParamView>,
}

impl View for MaterialRecord {
    type V = MaterialRecordView;

    open spec fn view(&self) -> MaterialRecordView {
        MaterialRecordView { name: self.name@, params: self.params@ }
    }
}

/// What the values of a texture are.
#[derive(Clone, Copy, Debug, PartialEq, Eq, Structural)]
pub enum TextureKind {
    Float,
    Spectrum,
}

/// A texture that a name was bound to.
#[derive(Debug)]
pub struct TextureRecord {
    pub name: Vec<u8>,
    pub kind: TextureKind,
    pub class: Vec<u8>,
    pub params: ParamSet,
}

pub struct TextureRecordView {
    pub name: Seq<u8>,
    pub kind: TextureKind,
    pub class: Seq<u8>,
    pub params: Seq<ParamView>,
}

impl View for TextureRecord {
    type V = TextureRecordView;

    open spec fn view(&self) -> TextureRecordView {
        TextureRecordView {
            name: self.name@,
            kind: self.kind,
            class: self.class@,
            params: self.params@,
        }
    }
}

/// The description of a scene that a renderer consumes.
#[derive(Debug)]
pub struct RenderOptions {
    pub transform_start_time: Number,
    pub transform_end_time: Number,
    pub filter_name: Vec<u8>,
    pub filter_params: ParamSet,
    pub film_name: Vec<u8>,
    pub film_params: ParamSet,
    pub sampler_name: Vec<u8>,
    pub sampler_params: ParamSet,
    pub accelerator_name: Vec<u8>,
    pub accelerator_params: ParamSet,
    pub integrator_name: Vec<u8>,
    pub integrator_params: ParamSet,
    pub camera_name: Vec<u8>,
    pub camera_params: ParamSet,
    pub camera_to_world: TransformSet,
    pub lights: Vec<Light>,
    pub primitives: Vec<Primitive>,
    /// The materials that names were bound to; a handle is an index into
    /// this list.
    pub materials: Vec<MaterialRecord>,
    /// The textures that names were bound to; a handle is an index into
    /// this list.
    pub textures: Vec<TextureRecord>,
    pub have_scattering_media: bool,
}

pub struct RenderOptionsView {
    pub transform_start_time: Seq<u8>,
    pub transform_end_time: Seq<u8>,
    pub filter_name: Seq<u8>,
    pub filter_params: Seq<ParamView>,
    pub film_name: Seq<u8>,
    pub film_params: Seq<ParamView>,
    pub sampler_name: Seq<u8>,
    pub sampler_params: Seq<ParamView>,
    pub accelerator_name: Seq<u8>,
    pub accelerator_params: Seq<ParamView>,
    pub integrator_name: Seq<u8>,
    pub integrator_params: Seq<ParamView>,
    pub camera_name: Seq<u8>,
    pub camera_params: Seq<ParamView>,
    pub camera_to_world: TransformSetView,
    pub lights: Seq<LightView>,
    pub primitives: Seq<PrimitiveView>,
    pub materials: Seq<MaterialRecordView>,
    pub textures: Seq<TextureRecordView>,
    pub have_scattering_media: bool,
}

impl View for RenderOptions {
    type V = RenderOptionsView;

    open spec fn view(&self) -> RenderOptionsView {
        RenderOptionsView {
            transform_start_time: self.transform_start_time@,
            transform_end_time: self.transform_end_time@,
            filter_name: self.filter_name@,
            filter_params: self.filter_params@,
            film_name: self.film_name@,
            film_params: self.film_params@,
            sampler_name: self.sampler_name@,
            sampler_params: self.sampler_params@,
            accelerator_name: self.accelerator_name@,
            accelerator_params: self.accelerator_params@,
            integrator_name: self.integrator_name@,
            integrator_params: self.integrator_params@,
            camera_name: self.camera_name@,
            camera_params: self.camera_params@,
            camera_to_world: self.camera_to_world@,
            lights: views(self.lights@),
            primitives: views(self.primitives@),
            materials: views(self.materials@),
            textures: views(self.textures@),
            have_scattering_media: self.have_scattering_media,
        }
    }
}

/// The options before any directive is read: the shutter opens at 0 and
/// closes at 1, the names are the defaults of the renderer, the camera
/// stands at the origin, and nothing is accumulated.
pub open spec fn default_options() -> RenderOptionsView {
    RenderOptionsView {
        transform_start_time: seq![48u8],
        transform_end_time: seq![49u8],
        filter_name: lit("box"),
        filter_params: Seq::empty(),
        film_name: lit("image"),
        film_params: Seq::empty(),
        sampler_name: lit("halton"),
        sampler_params: Seq::empty(),
        accelerator_name: lit("bvh"),
        accelerator_params: Seq::empty(),
        integrator_name: lit("image"),
        integrator_params: Seq::empty(),
        camera_name: lit("perspective"),
        camera_params: Seq::empty(),
        camera_to_world: identity_pair(),
        lights: Seq::empty(),
        primitives: Seq::empty(),
        materials: Seq::empty(),
        textures: Seq::empty(),
        have_scattering_media: false,
    }
}

impl Default for RenderOptions {
    fn default() -> (r: Self)
        ensures
            r@ == default_options(),
    {
        let r = RenderOptions {
            transform_start_time: Number::zero(),
            transform_end_time: Number::one(),
            filter_name: "box".as_bytes_vec(),
            filter_params: ParamSet::default(),
            film_name: "image".as_bytes_vec(),
            film_params: ParamSet::default(),
            sampler_name: "halton".as_bytes_vec(),
            sampler_params: ParamSet::default(),
            accelerator_name: "bvh".as_bytes_vec(),
            accelerator_params: ParamSet::default(),
            integrator_name: "image".as_bytes_vec(),
            integrator_params: ParamSet::default(),
            camera_name: "perspective".as_bytes_vec(),
            camera_params: ParamSet::default(),
            camera_to_world: TransformSet::default(),
            lights: Vec::new(),
            primitives: Vec::new(),
            materials: Vec::new(),
            textures: Vec::new(),
            have_scattering_media: false,
        };
        assert(r@.lights =~= Seq::empty());
        assert(r@.primitives =~= Seq::empty());
        assert(r@.materials =~= Seq::empty());
        assert(r@.textures =~= Seq::empty());
        r
    }
}

/// Whether a directive sets one of the global options, which are set
/// before the world begins.
pub open spec fn is_option(object: ObjectKind) -> bool {
    object is Camera || object is Sampler || object is Film || object is PixelFilter
        || object is Integrator || object is Accelerator
}

/// The options after a directive has set one of them. The camera is placed
/// by the inverse of the transform pair that is current.
pub open spec fn with_option(
    o: RenderOptionsView,
    object: ObjectKind,
    name: Seq<u8>,
    params: Seq<ParamView>,
    current: TransformSetView,
) -> RenderOptionsView {
    match object {
        ObjectKind::Camera => RenderOptionsView {
            camera_name: name,
            camera_params: params,
            camera_to_world: pair_inverse(current),
            ..o
        },
        ObjectKind::Sampler => RenderOptionsView { sampler_name: name, sampler_params: params, ..o },
        ObjectKind::Film => RenderOptionsView { film_name: name, film_params: params, ..o },
        ObjectKind::PixelFilter => RenderOptionsView {
            filter_name: name,
            filter_params: params,
            ..o
        },
        ObjectKind::Integrator => RenderOptionsView {
            integrator_name: name,
            integrator_params: params,
            ..o
        },
        ObjectKind::Accelerator => RenderOptionsView {
            accelerator_name: name,
            accelerator_params: params,
            ..o
        },
        _ => o,
    }
}

impl RenderOptions {
    /// Sets the option that the directive names. A directive that sets no
    /// option changes nothing.
    pub fn set_option(
        &mut self,
        object: ObjectKind,
        name: Vec<u8>,
        params: ParamSet,
        current: &TransformSet,
    )
        ensures
            final(self)@ == with_option(old(self)@, object, name@, params@, current@),
    {
        match object {
            ObjectKind::Camera => {
                self.camera_name = name;
                self.camera_params = params;
                self.camera_to_world = current.inverse();
            },
            ObjectKind::Sampler => {
                self.sampler_name = name;
                self.sampler_params = params;
            },
            ObjectKind::Film => {
                self.film_name = name;
                self.film_params = params;
            },
            ObjectKind::PixelFilter => {
                self.filter_name = name;
                self.filter_params = params;
            },
            ObjectKind::Integrator => {
                self.integrator_name = name;
                self.integrator_params = params;
            },
            ObjectKind::Accelerator => {
                self.accelerator_name = name;
                self.accelerator_params = params;
            },
            _ => {},
        }
    }

    /// Appends a light.
    pub fn add_light(&mut self, light: Light)
        ensures
            final(self)@ == (RenderOptionsView {
                lights: old(self)@.lights.push(light@),
                ..old(self)@
            }),
    {
        self.lights.push(light);
        assert(views(self.lights@) =~= old(self)@.lights.push(light@));
    }

    /// Appends a primitive.
    pub fn add_primitive(&mut self, primitive: Primitive)
        ensures
            final(self)@ == (RenderOptionsView {
                primitives: old(self)@.primitives.push(primitive@),
                ..old(self)@
            }),
    {
        self.primitives.push(primitive);
        assert(views(self.primitives@) =~= old(self)@.primitives.push(primitive@));
    }

    /// Appends a material and returns its handle.
    pub fn add_material(&mut self, material: MaterialRecord) -> (handle: usize)
        ensures
            handle == old(self)@.materials.len(),
            final(self)@ == (RenderOptionsView {
                materials: old(self)@.materials.push(material@),
                ..old(self)@
            }),
    {
        let handle: usize = self.materials.len();
        self.materials.push(material);
        assert(views(self.materials@) =~= old(self)@.materials.push(material@));
        handle
    }

    /// Appends a texture and returns its handle.
    pub fn add_texture(&mut self, texture: TextureRecord) -> (handle: usize)
        ensures
            handle == old(self)@.textures.len(),
            final(self)@ == (RenderOptionsView {
                textures: old(self)@.textures.push(texture@),
                ..old(self)@
            }),
    {
        let handle: usize = self.textures.len();
        self.textures.push(texture);
        assert(views(self.textures@) =~= old(self)@.textures.push(texture@));
        handle
    }
}

/// The names of the objects that the renderer can construct, by kind.
#[derive(Debug)]
pub struct Catalog {
    pub shapes: Vec<Vec<u8>>,
    pub lights: Vec<Vec<u8>>,
    pub materials: Vec<Vec<u8>>,
    pub textures: Vec<Vec<u8>>,
}

pub struct CatalogView {
    pub shapes: Seq<Seq<u8>>,
    pub lights: Seq<Seq<u8>>,
    pub materials: Seq<Seq<u8>>,
    pub textures: Seq<Seq<u8>>,
}

impl View for Catalog {
    type V = CatalogView;

    open spec fn view(&self) -> CatalogView {
        CatalogView {
            shapes: views(self.shapes@),
            lights: views(self.lights@),
            materials: views(self.materials@),
            textures: views(self.textures@),
        }
    }
}

} // verus!
