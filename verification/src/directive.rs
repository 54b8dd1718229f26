//! The directives of the scene language, as the grammar layer hands them to
//! the interpreter.

use crate::number::Number;
use crate::params::{lit, spells, RawParam, RawParamView};
use crate::text::views;
use crate::transform::TransformKind;
use vstd::prelude::*;

verus! {

/// The directives that carry a name and a parameter list.
#[derive(Clone, Copy, Debug, PartialEq, Eq, Structural)]
pub enum ObjectKind {
    Camera,
    Sampler,
    Film,
    PixelFilter,
    Integrator,
    Accelerator,
    LightSource,
    AreaLightSource,
    Material,
    MakeNamedMaterial,
    Shape,
}

/// The directives that the grammar accepts and the interpreter passes over.
#[derive(Clone, Copy, Debug, PartialEq, Eq, Structural)]
pub enum StubKind {
    ActiveTransform,
    All,
    CoordinateSystem,
    CoordSysTransform,
    EndTime,
    Include,
    MakeNamedMedium,
    MediumInterface,
    ObjectBegin,
    ObjectEnd,
    ObjectInstance,
    ReverseOrientation,
    StartTime,
    TransformTimes,
    Transform,
}

/// The keywords of the language.
#[derive(Clone, Copy, Debug, PartialEq, Eq, Structural)]
pub enum Keyword {
    Compose(TransformKind),
    Identity,
    AttributeBegin,
    AttributeEnd,
    TransformBegin,
    TransformEnd,
    WorldBegin,
    WorldEnd,
    Object(ObjectKind),
    Texture,
    NamedMaterial,
    Stub(StubKind),
}

/// One directive with its arguments.
#[derive(Debug)]
pub enum Directive {
    /// `LookAt`, `Rotate`, `Translate`, `Scale` or `ConcatTransform`, with
    /// its numbers.
    Compose { transform: TransformKind, args: Vec<Number> },
    Identity,
    AttributeBegin,
    AttributeEnd,
    TransformBegin,
    TransformEnd,
    WorldBegin,
    WorldEnd,
    /// A directive with a name and parameters, such as `Camera` or `Shape`.
    Object { object: ObjectKind, name: Vec<u8>, params: Vec<RawParam> },
    /// `Texture`, with the name of the texture, the type of its values
    /// (`float` or `spectrum`), its class and its parameters.
    Texture { name: Vec<u8>, value_type: Vec<u8>, class: Vec<u8>, params: Vec<RawParam> },
    /// `NamedMaterial`, with the name of the material that it chooses.
    NamedMaterial { name: Vec<u8> },
    /// A directive that is accepted and passed over.
    Stub { keyword: StubKind },
}

pub enum DirectiveView {
    Compose { transform: TransformKind, args: Seq<Seq<u8>> },
    Identity,
    AttributeBegin,
    AttributeEnd,
    TransformBegin,
    TransformEnd,
    WorldBegin,
    WorldEnd,
    Object { object: ObjectKind, name: Seq<u8>, params: Seq<RawParamView> },
    Texture { name: Seq<u8>, value_type: Seq<u8>, class: Seq<u8>, params: Seq<RawParamView> },
    NamedMaterial { name: Seq<u8> },
    Stub { keyword: StubKind },
}

impl View for Directive {
    type V = DirectiveView;

    open spec fn view(&self) -> DirectiveView {
        match *self {
            Directive::Compose { transform, args } => DirectiveView::Compose {
                transform,
                args: views(args@),
            },
            Directive::Identity => DirectiveView::Identity,
            Directive::AttributeBegin => DirectiveView::AttributeBegin,
            Directive::AttributeEnd => DirectiveView::AttributeEnd,
            Directive::TransformBegin => DirectiveView::TransformBegin,
            Directive::TransformEnd => DirectiveView::TransformEnd,
            Directive::WorldBegin => DirectiveView::WorldBegin,
            Directive::WorldEnd => DirectiveView::WorldEnd,
            Directive::Object { object, name, params } => DirectiveView::Object {
                object,
                name: name@,
                params: views(params@),
            },
            Directive::Texture { name, value_type, class, params } => DirectiveView::Texture {
                name: name@,
                value_type: value_type@,
                class: class@,
                params: views(params@),
            },
            Directive::NamedMaterial { name } => DirectiveView::NamedMaterial { name: name@ },
            Directive::Stub { keyword } => DirectiveView::Stub { keyword },
        }
    }
}

/// A directive and the byte offset of its keyword in the text.
#[derive(Debug)]
pub struct Statement {
    pub position: usize,
    pub directive: Directive,
}

pub struct StatementView {
    pub position: usize,
    pub directive: DirectiveView,
}

impl View for Statement {
    type V = StatementView;

    open spec fn view(&self) -> StatementView {
        StatementView { position: self.position, directive: self.directive@ }
    }
}

/// The keyword that a word spells, if it spells one.
pub open spec fn keyword_of(word: Seq<u8>) -> Option<Keyword> {
    if word == lit("LookAt") {
        Some(Keyword::Compose(TransformKind::LookAt))
    } else if word == lit("Rotate") {
        Some(Keyword::Compose(TransformKind::Rotate))
    } else if word == lit("Translate") {
        Some(Keyword::Compose(TransformKind::Translate))
    } else if word == lit("Scale") {
        Some(Keyword::Compose(TransformKind::Scale))
    } else if word == lit("ConcatTransform") {
        Some(Keyword::Compose(TransformKind::Concat))
    } else if word == lit("Identity") {
        Some(Keyword::Identity)
    } else if word == lit("AttributeBegin") {
        Some(Keyword::AttributeBegin)
    } else if word == lit("AttributeEnd") {
        Some(Keyword::AttributeEnd)
    } else if word == lit("TransformBegin") {
        Some(Keyword::TransformBegin)
    } else if word == lit("TransformEnd") {
        Some(Keyword::TransformEnd)
    } else if word == lit("WorldBegin") {
        Some(Keyword::WorldBegin)
    } else if word == lit("WorldEnd") {
        Some(Keyword::WorldEnd)
    } else if word == lit("Texture") {
        Some(Keyword::Texture)
    } else if word == lit("NamedMaterial") {
        Some(Keyword::NamedMaterial)
    } else {
        match object_keyword_of(word) {
            Some(object) => Some(Keyword::Object(object)),
            None => match stub_keyword_of(word) {
                Some(stub) => Some(Keyword::Stub(stub)),
                None => None,
            },
        }
    }
}

/// The directive with a name and parameters that a word spells.
pub open spec fn object_keyword_of(word: Seq<u8>) -> Option<ObjectKind> {
    if word == lit("Camera") {
        Some(ObjectKind::Camera)
    } else if word == lit("Sampler") {
        Some(ObjectKind::Sampler)
    } else if word == lit("Film") {
        Some(ObjectKind::Film)
    } else if word == lit("PixelFilter") {
        Some(ObjectKind::PixelFilter)
    } else if word == lit("Integrator") {
        Some(ObjectKind::Integrator)
    } else if word == lit("Accelerator") {
        Some(ObjectKind::Accelerator)
    } else if word == lit("LightSource") {
        Some(ObjectKind::LightSource)
    } else if word == lit("AreaLightSource") {
        Some(ObjectKind::AreaLightSource)
    } else if word == lit("Material") {
        Some(ObjectKind::Material)
    } else if word == lit("MakeNamedMaterial") {
        Some(ObjectKind::MakeNamedMaterial)
    } else if word == lit("Shape") {
        Some(ObjectKind::Shape)
    } else {
        None
    }
}

/// The directive that is passed over that a word spells.
pub open spec fn stub_keyword_of(word: Seq<u8>) -> Option<StubKind> {
    if word == lit("ActiveTransform") {
        Some(StubKind::ActiveTransform)
    } else if word == lit("All") {
        Some(StubKind::All)
    } else if word == lit("CoordinateSystem") {
        Some(StubKind::CoordinateSystem)
    } else if word == lit("CoordSysTransform") {
        Some(StubKind::CoordSysTransform)
    } else if word == lit("EndTime") {
        Some(StubKind::EndTime)
    } else if word == lit("Include") {
        Some(StubKind::Include)
    } else if word == lit("MakeNamedMedium") {
        Some(StubKind::MakeNamedMedium)
    } else if word == lit("MediumInterface") {
        Some(StubKind::MediumInterface)
    } else if word == lit("ObjectBegin") {
        Some(StubKind::ObjectBegin)
    } else if word == lit("ObjectEnd") {
        Some(StubKind::ObjectEnd)
    } else if word == lit("ObjectInstance") {
        Some(StubKind::ObjectInstance)
    } else if word == lit("ReverseOrientation") {
        Some(StubKind::ReverseOrientation)
    } else if word == lit("StartTime") {
        Some(StubKind::StartTime)
    } else if word == lit("TransformTimes") {
        Some(StubKind::TransformTimes)
    } else if word == lit("Transform") {
        Some(StubKind::Transform)
    } else {
        None
    }
}

/// The directive with a name and parameters that a word spells.
pub fn object_keyword(word: &[u8]) -> (r: Option<ObjectKind>)
    ensures
        r == object_keyword_of(word@),
{
    if spells(word, "Camera") {
        Some(ObjectKind::Camera)
    } else if spells(word, "Sampler") {
        Some(ObjectKind::Sampler)
    } else if spells(word, "Film") {
        Some(ObjectKind::Film)
    } else if spells(word, "PixelFilter") {
        Some(ObjectKind::PixelFilter)
    } else if spells(word, "Integrator") {
        Some(ObjectKind::Integrator)
    } else if spells(word, "Accelerator") {
        Some(ObjectKind::Accelerator)
    } else if spells(word, "LightSource") {
        Some(ObjectKind::LightSource)
    } else if spells(word, "AreaLightSource") {
        Some(ObjectKind::AreaLightSource)
    } else if spells(word, "Material") {
        Some(ObjectKind::Material)
    } else if spells(word, "MakeNamedMaterial") {
        Some(ObjectKind::MakeNamedMaterial)
    } else if spells(word, "Shape") {
        Some(ObjectKind::Shape)
    } else {
        None
    }
}

/// The directive that is passed over that a word spells.
pub fn stub_keyword(word: &[u8]) -> (r: Option<StubKind>)
    ensures
        r == stub_keyword_of(word@),
{
    if spells(word, "ActiveTransform") {
        Some(StubKind::ActiveTransform)
    } else if spells(word, "All") {
        Some(StubKind::All)
    } else if spells(word, "CoordinateSystem") {
        Some(StubKind::CoordinateSystem)
    } else if spells(word, "CoordSysTransform") {
        Some(StubKind::CoordSysTransform)
    } else if spells(word, "EndTime") {
        Some(StubKind::EndTime)
    } else if spells(word, "Include") {
        Some(StubKind::Include)
    } else if spells(word, "MakeNamedMedium") {
        Some(StubKind::MakeNamedMedium)
    } else if spells(word, "MediumInterface") {
        Some(StubKind::MediumInterface)
    } else if spells(word, "ObjectBegin") {
        Some(StubKind::ObjectBegin)
    } else if spells(word, "ObjectEnd") {
        Some(StubKind::ObjectEnd)
    } else if spells(word, "ObjectInstance") {
        Some(StubKind::ObjectInstance)
    } else if spells(word, "ReverseOrientation") {
        Some(StubKind::ReverseOrientation)
    } else if spells(word, "StartTime") {
        Some(StubKind::StartTime)
    } else if spells(word, "TransformTimes") {
        Some(StubKind::TransformTimes)
    } else if spells(word, "Transform") {
        Some(StubKind::Transform)
    } else {
        None
    }
}

/// The keyword that a word spells.
pub fn keyword(word: &[u8]) -> (r: Option<Keyword>)
    ensures
        r == keyword_of(word@),
{
    if spells(word, "LookAt") {
        Some(Keyword::Compose(TransformKind::LookAt))
    } else if spells(word, "Rotate") {
        Some(Keyword::Compose(TransformKind::Rotate))
    } else if spells(word, "Translate") {
        Some(Keyword::Compose(TransformKind::Translate))
    } else if spells(word, "Scale") {
        Some(Keyword::Compose(TransformKind::Scale))
    } else if spells(word, "ConcatTransform") {
        Some(Keyword::Compose(TransformKind::Concat))
    } else if spells(word, "Identity") {
        Some(Keyword::Identity)
    } else if spells(word, "AttributeBegin") {
        Some(Keyword::AttributeBegin)
    } else if spells(word, "AttributeEnd") {
        Some(Keyword::AttributeEnd)
    } else if spells(word, "TransformBegin") {
        Some(Keyword::TransformBegin)
    } else if spells(word, "TransformEnd") {
        Some(Keyword::TransformEnd)
    } else if spells(word, "WorldBegin") {
        Some(Keyword::WorldBegin)
    } else if spells(word, "WorldEnd") {
        Some(Keyword::WorldEnd)
    } else if spells(word, "Texture") {
        Some(Keyword::Texture)
    } else if spells(word, "NamedMaterial") {
        Some(Keyword::NamedMaterial)
    } else {
        match object_keyword(word) {
            Some(object) => Some(Keyword::Object(object)),
            None => match stub_keyword(word) {
                Some(stub) => Some(Keyword::Stub(stub)),
                None => None,
            },
        }
    }
}

} // verus!
