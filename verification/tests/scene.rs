use pbrt::directive::{Directive, ObjectKind, StubKind};
use pbrt::error::SceneError;
use pbrt::interpreter::{load_scene, Failure, Interpreter, Phase};
use pbrt::options::{Catalog, RenderOptions, TextureKind};
use pbrt::params::{ParamValue, RawParam, RawValue};
use pbrt::parser::parse_scene;
use pbrt::transform::TransformKind;
use pbrt::Number;

fn names(list: &[&str]) -> Vec<Vec<u8>> {
    list.iter().map(|n| n.as_bytes().to_vec()).collect()
}

fn catalog() -> Catalog {
    Catalog {
        shapes: names(&["sphere", "cylinder"]),
        lights: names(&["point", "distant"]),
        materials: names(&["matte", "plastic", "gold"]),
        textures: names(&["imagemap", "constant"]),
    }
}

fn load(text: &str) -> Result<RenderOptions, Failure> {
    load_scene(text.as_bytes(), catalog())
}

fn world(body: &str) -> String {
    format!("WorldBegin\n{}\nWorldEnd\n", body)
}

fn failure_of(text: &str) -> SceneError {
    match load(text) {
        Ok(_) => panic!("the scene was accepted"),
        Err(f) => f.error,
    }
}

fn float_of(n: &Number) -> f32 {
    std::str::from_utf8(n.as_bytes()).unwrap().parse::<f32>().unwrap()
}

fn number(text: &str) -> Number {
    Number::parse(text.as_bytes()).unwrap()
}

fn run(text: &str) -> Interpreter {
    let complete = text.ends_with("WorldEnd");
    let all = if complete { text.to_string() } else { format!("{}\nWorldEnd", text) };
    let mut statements = parse_scene(all.as_bytes()).ok().unwrap();
    if !complete {
        statements.pop();
    }
    let mut interpreter = Interpreter::new(catalog());
    for statement in statements.iter() {
        interpreter.step(&statement.directive).unwrap();
    }
    interpreter
}

#[test]
fn end_to_end_scene() {
    let text = "LookAt 0 0 0 0 0 1 0 1 0\nCamera \"perspective\" \"float fov\" [90]\nWorldBegin\nShape \"sphere\" \"float radius\" [1]\nWorldEnd";
    let options = load(text).unwrap();
    assert_eq!(options.camera_name, b"perspective".to_vec());
    match options.camera_params.find(b"fov") {
        Some(ParamValue::Float(n)) => assert_eq!(float_of(n), 90.0),
        _ => panic!("fov is no float"),
    }
    assert_eq!(options.primitives.len(), 1);
    let primitive = &options.primitives[0];
    assert_eq!(primitive.shape, b"sphere".to_vec());
    match primitive.params.find(b"radius") {
        Some(ParamValue::Float(n)) => assert_eq!(float_of(n), 1.0),
        _ => panic!("radius is no float"),
    }
    assert!(primitive.state.material.is_empty());
    assert!(primitive.state.current_named_material.is_empty());
    assert!(primitive.object_to_world.t[0].factors.is_empty());
    assert!(primitive.object_to_world.t[1].factors.is_empty());
    for k in 0..2 {
        let chain = &options.camera_to_world.t[k].factors;
        assert_eq!(chain.len(), 1);
        assert_eq!(chain[0].kind, TransformKind::LookAt);
        assert!(chain[0].inverse);
        let args: Vec<f32> = chain[0].args.iter().map(float_of).collect();
        assert_eq!(args, vec![0.0, 0.0, 0.0, 0.0, 0.0, 1.0, 0.0, 1.0, 0.0]);
    }
    assert!(!options.camera_to_world.is_animated());
}

#[test]
fn shape_is_bound_to_the_material_at_its_declaration() {
    let options = load(&world(
        "Material \"matte\"\nShape \"sphere\"\nMaterial \"plastic\"\nShape \"sphere\"",
    ))
    .unwrap();
    assert_eq!(options.primitives.len(), 2);
    assert_eq!(options.primitives[0].state.material, b"matte".to_vec());
    assert_eq!(options.primitives[1].state.material, b"plastic".to_vec());
}

#[test]
fn shape_is_bound_to_the_transform_at_its_declaration() {
    let options = load(&world("Translate 1 2 3\nShape \"sphere\"\nScale 2 2 2\nShape \"sphere\""))
        .unwrap();
    assert_eq!(options.primitives[0].object_to_world.t[0].factors.len(), 1);
    assert_eq!(options.primitives[1].object_to_world.t[0].factors.len(), 2);
    assert_eq!(options.primitives[1].object_to_world.t[1].factors[1].kind, TransformKind::Scale);
}

#[test]
fn attribute_end_without_begin_underflows() {
    assert_eq!(failure_of(&world("AttributeEnd")), SceneError::StackUnderflow);
    assert_eq!(
        failure_of(&world("AttributeBegin\nAttributeEnd\nAttributeEnd")),
        SceneError::StackUnderflow
    );
}

#[test]
fn transform_end_without_begin_underflows() {
    assert_eq!(failure_of("TransformEnd\nWorldBegin\nWorldEnd"), SceneError::StackUnderflow);
    assert_eq!(failure_of(&world("TransformBegin\nTransformEnd\nTransformEnd")), SceneError::StackUnderflow);
}

#[test]
fn underflow_reports_the_offending_directive() {
    let text = "WorldBegin\nAttributeEnd\nWorldEnd";
    assert_eq!(
        load(text).err().unwrap(),
        Failure { error: SceneError::StackUnderflow, position: 11 }
    );
}

#[test]
fn refused_directive_changes_nothing() {
    let mut interpreter = run("WorldBegin\nAttributeBegin\nMaterial \"matte\"");
    let depth = interpreter.graphics().depth();
    assert_eq!(interpreter.step(&Directive::WorldBegin), Err(SceneError::IllegalDirectiveInScope));
    assert_eq!(interpreter.graphics().depth(), depth);
    assert_eq!(interpreter.graphics().current().material, b"matte".to_vec());
    assert_eq!(interpreter.phase(), Phase::World);
}

#[test]
fn balanced_scope_restores_the_state() {
    let before = run("WorldBegin\nMaterial \"matte\"\nTranslate 1 0 0");
    let after = run(
        "WorldBegin\nMaterial \"matte\"\nTranslate 1 0 0\nAttributeBegin\nMaterial \"plastic\"\nScale 2 2 2\nMakeNamedMaterial \"gold\"\nTransformBegin\nRotate 90 0 0 1\nTransformEnd\nAttributeEnd",
    );
    assert_eq!(after.graphics().depth(), before.graphics().depth());
    assert_eq!(after.transforms().depth(), before.transforms().depth());
    assert_eq!(after.graphics().current().material, before.graphics().current().material);
    assert_eq!(after.graphics().current().named_materials.len(), 0);
    assert!(after.transforms().current().t[0].same(&before.transforms().current().t[0]));
    assert!(after.transforms().current().t[1].same(&before.transforms().current().t[1]));
}

#[test]
fn push_copies_the_current_frames() {
    let i = run("WorldBegin\nMaterial \"matte\"\nTranslate 1 0 0\nAttributeBegin");
    assert_eq!(i.graphics().depth(), 2);
    assert_eq!(i.transforms().depth(), 2);
    assert_eq!(i.graphics().current().material, b"matte".to_vec());
    assert_eq!(i.transforms().current().t[0].factors.len(), 1);
}

#[test]
fn transform_scope_leaves_the_graphics_stack_alone() {
    let i = run("WorldBegin\nTransformBegin\nMaterial \"matte\"\nTranslate 1 0 0\nTransformEnd");
    assert_eq!(i.graphics().depth(), 1);
    assert_eq!(i.transforms().depth(), 1);
    assert_eq!(i.graphics().current().material, b"matte".to_vec());
    assert!(i.transforms().current().t[0].factors.is_empty());
}

#[test]
fn named_material_of_an_outer_scope_stays_visible() {
    let options = load(&world(
        "MakeNamedMaterial \"gold\"\nAttributeBegin\nNamedMaterial \"gold\"\nShape \"sphere\"\nAttributeEnd\nNamedMaterial \"gold\"",
    ))
    .unwrap();
    assert_eq!(options.materials.len(), 1);
    let state = &options.primitives[0].state;
    assert_eq!(state.current_named_material, b"gold".to_vec());
    assert_eq!(state.named_materials.len(), 1);
    assert_eq!(state.named_materials[0].handle, 0);
    assert_eq!(options.materials[0].name, b"gold".to_vec());
}

#[test]
fn named_material_of_a_closed_scope_is_gone() {
    assert_eq!(
        failure_of(&world(
            "AttributeBegin\nMakeNamedMaterial \"gold\"\nNamedMaterial \"gold\"\nAttributeEnd\nNamedMaterial \"gold\""
        )),
        SceneError::UndefinedReference
    );
}

#[test]
fn later_binding_hides_the_earlier_one() {
    let i = run("WorldBegin\nMakeNamedMaterial \"gold\" \"float a\" [1]\nMakeNamedMaterial \"gold\" \"float a\" [2]");
    let bindings = &i.graphics().current().named_materials;
    assert_eq!(pbrt::graphics::find_binding(bindings, b"gold"), Some(1));
    assert_eq!(pbrt::graphics::find_binding(bindings, b"silver"), None);
}

#[test]
fn translate_and_back_is_the_identity() {
    let i = run("Translate 1.5 -2 3e1\nTranslate -1.5 2 -3e1");
    for k in 0..2 {
        let chain = &i.transforms().current().t[k].factors;
        assert_eq!(chain.len(), 2);
        let mut offset = [0.0f32; 3];
        for factor in chain.iter() {
            assert_eq!(factor.kind, TransformKind::Translate);
            assert!(!factor.inverse);
            for c in 0..3 {
                offset[c] += float_of(&factor.args[c]);
            }
        }
        for c in 0..3 {
            assert!(offset[c].abs() < 1e-6);
        }
    }
    assert!(!i.transforms().current().is_animated());
}

#[test]
fn world_begin_resets_the_transform_stack() {
    let i = run("Translate 1 2 3\nTransformBegin\nWorldBegin");
    assert_eq!(i.transforms().depth(), 1);
    assert!(i.transforms().current().t[0].factors.is_empty());
    assert_eq!(i.phase(), Phase::World);
}

#[test]
fn identity_replaces_the_current_transform() {
    let i = run("Translate 1 2 3\nRotate 90 0 0 1\nIdentity\nScale 1 1 2");
    let chain = &i.transforms().current().t[0].factors;
    assert_eq!(chain.len(), 1);
    assert_eq!(chain[0].kind, TransformKind::Scale);
}

#[test]
fn concat_transform_takes_sixteen_numbers() {
    let i = run("ConcatTransform [1 0 0 0 0 1 0 0 0 0 1 0 0 0 0 1]");
    let chain = &i.transforms().current().t[1].factors;
    assert_eq!(chain[0].kind, TransformKind::Concat);
    assert_eq!(chain[0].args.len(), 16);
    assert_eq!(
        parse_scene(b"ConcatTransform [1 0 0 0 0 1 0 0 0 0 1 0 0 0 0]\nWorldEnd").err(),
        Some(SceneError::ParseError { position: 46 })
    );
}

#[test]
fn phases_are_enforced() {
    assert_eq!(failure_of("Shape \"sphere\"\nWorldBegin\nWorldEnd"), SceneError::IllegalDirectiveInScope);
    assert_eq!(failure_of("LightSource \"point\"\nWorldBegin\nWorldEnd"), SceneError::IllegalDirectiveInScope);
    assert_eq!(failure_of("AttributeBegin\nWorldBegin\nWorldEnd"), SceneError::IllegalDirectiveInScope);
    assert_eq!(failure_of(&world("Camera \"perspective\"")), SceneError::IllegalDirectiveInScope);
    assert_eq!(failure_of(&world("WorldBegin")), SceneError::IllegalDirectiveInScope);
    assert_eq!(failure_of("WorldEnd"), SceneError::IllegalDirectiveInScope);
    let mut done = run("WorldBegin\nWorldEnd");
    assert_eq!(done.phase(), Phase::Done);
    assert_eq!(done.step(&Directive::Identity), Err(SceneError::IllegalDirectiveInScope));
    assert_eq!(
        done.step(&Directive::Stub { keyword: StubKind::Include }),
        Err(SceneError::IllegalDirectiveInScope)
    );
}

#[test]
fn options_are_available_after_world_end_only() {
    assert!(run("WorldBegin").into_options().is_none());
    assert!(run("Camera \"perspective\"").into_options().is_none());
    assert!(run("WorldBegin\nWorldEnd").into_options().is_some());
}

#[test]
fn global_options_are_stored() {
    let options = load(
        "Sampler \"halton\" \"integer pixelsamples\" [8]\nFilm \"image\" \"string filename\" [\"out.exr\"]\nPixelFilter \"mitchell\" \"float xwidth\" [2] \"float ywidth\" [2]\nIntegrator \"path\"\nAccelerator \"kdtree\"\nWorldBegin\nWorldEnd",
    )
    .unwrap();
    assert_eq!(options.sampler_name, b"halton".to_vec());
    match options.sampler_params.find(b"pixelsamples") {
        Some(ParamValue::Integer(8)) => {},
        _ => panic!("pixelsamples is not 8"),
    }
    assert_eq!(options.film_name, b"image".to_vec());
    match options.film_params.find(b"filename") {
        Some(ParamValue::Str(s)) => assert_eq!(s, &b"out.exr".to_vec()),
        _ => panic!("filename is no string"),
    }
    assert_eq!(options.filter_name, b"mitchell".to_vec());
    assert_eq!(options.filter_params.len(), 2);
    assert_eq!(options.integrator_name, b"path".to_vec());
    assert_eq!(options.accelerator_name, b"kdtree".to_vec());
}

#[test]
fn default_options() {
    let options = RenderOptions::default();
    assert_eq!(float_of(&options.transform_start_time), 0.0);
    assert_eq!(float_of(&options.transform_end_time), 1.0);
    assert_eq!(options.filter_name, b"box".to_vec());
    assert_eq!(options.film_name, b"image".to_vec());
    assert_eq!(options.sampler_name, b"halton".to_vec());
    assert_eq!(options.accelerator_name, b"bvh".to_vec());
    assert_eq!(options.integrator_name, b"image".to_vec());
    assert_eq!(options.camera_name, b"perspective".to_vec());
    assert!(options.camera_to_world.t[0].factors.is_empty());
    assert!(options.lights.is_empty());
    assert!(options.primitives.is_empty());
    assert!(!options.have_scattering_media);
    let empty = load("WorldBegin\nWorldEnd").unwrap();
    assert_eq!(empty.camera_name, b"perspective".to_vec());
    assert_eq!(empty.primitives.len(), 0);
}

#[test]
fn lights_are_recorded_with_their_transform() {
    let options = load(&world("Translate 0 5 0\nLightSource \"point\" \"rgb I\" [ .5 .5 .5 ]")).unwrap();
    assert_eq!(options.lights.len(), 1);
    assert_eq!(options.lights[0].name, b"point".to_vec());
    assert_eq!(options.lights[0].light_to_world.t[0].factors.len(), 1);
    match options.lights[0].params.find(b"I") {
        Some(ParamValue::Rgb(r, g, b)) => {
            assert_eq!((float_of(r), float_of(g), float_of(b)), (0.5, 0.5, 0.5));
        },
        _ => panic!("I is no colour"),
    }
}

#[test]
fn area_light_is_part_of_the_state() {
    let options = load(&world(
        "AttributeBegin\nAreaLightSource \"diffuse\" \"rgb L\" [1 1 1]\nShape \"sphere\"\nAttributeEnd\nShape \"sphere\"",
    ))
    .unwrap();
    assert_eq!(options.primitives[0].state.area_light, b"diffuse".to_vec());
    assert_eq!(options.primitives[0].state.area_light_params.len(), 1);
    assert!(options.primitives[1].state.area_light.is_empty());
}

#[test]
fn unknown_objects_are_refused() {
    assert_eq!(failure_of(&world("Shape \"teapot\"")), SceneError::UnknownObjectName);
    assert_eq!(failure_of(&world("LightSource \"laser\"")), SceneError::UnknownObjectName);
    assert_eq!(failure_of(&world("MakeNamedMaterial \"wood\"")), SceneError::UnknownObjectName);
    assert_eq!(
        failure_of(&world("Texture \"t\" \"float\" \"marble\"")),
        SceneError::UnknownObjectName
    );
}

#[test]
fn textures_are_bound_by_kind() {
    let options = load(&world(
        "Texture \"mydiffuse\" \"spectrum\" \"imagemap\" \"string filename\" \"image.tga\"\nTexture \"bump\" \"float\" \"constant\" \"float value\" [2]\nMaterial \"matte\" \"texture Kd\" \"mydiffuse\" \"texture b\" [\"bump\"]\nShape \"sphere\"",
    ))
    .unwrap();
    assert_eq!(options.textures.len(), 2);
    assert_eq!(options.textures[0].kind, TextureKind::Spectrum);
    assert_eq!(options.textures[0].class, b"imagemap".to_vec());
    assert_eq!(options.textures[1].kind, TextureKind::Float);
    let state = &options.primitives[0].state;
    assert_eq!(state.spectrum_textures.len(), 1);
    assert_eq!(state.spectrum_textures[0].name, b"mydiffuse".to_vec());
    assert_eq!(state.spectrum_textures[0].handle, 0);
    assert_eq!(state.float_textures[0].handle, 1);
    match state.material_params.find(b"Kd") {
        Some(ParamValue::Texture(n)) => assert_eq!(n, &b"mydiffuse".to_vec()),
        _ => panic!("Kd is no texture"),
    }
}

#[test]
fn undefined_references_are_refused() {
    assert_eq!(failure_of(&world("NamedMaterial \"gold\"")), SceneError::UndefinedReference);
    assert_eq!(
        failure_of(&world("Material \"matte\" \"texture Kd\" \"nothing\"")),
        SceneError::UndefinedReference
    );
    assert_eq!(
        failure_of(&world(
            "AttributeBegin\nTexture \"t\" \"float\" \"constant\"\nAttributeEnd\nMaterial \"matte\" \"texture Kd\" \"t\""
        )),
        SceneError::UndefinedReference
    );
}

#[test]
fn texture_type_must_be_known() {
    assert_eq!(failure_of(&world("Texture \"t\" \"colour\" \"constant\"")), SceneError::UnknownParamType);
}

#[test]
fn stubs_are_parsed_and_passed_over() {
    let text = "CoordinateSystem \"camera\"\nActiveTransform All\nTransformTimes 0 1\nTransform [1 0 0 0 0 1 0 0 0 0 1 0 0 0 0 1]\nReverseOrientation\nWorldEnd";
    let statements = parse_scene(text.as_bytes()).unwrap();
    let kinds: Vec<StubKind> = statements
        .iter()
        .filter_map(|s| match &s.directive {
            Directive::Stub { keyword } => Some(*keyword),
            _ => None,
        })
        .collect();
    assert_eq!(
        kinds,
        vec![
            StubKind::CoordinateSystem,
            StubKind::ActiveTransform,
            StubKind::All,
            StubKind::TransformTimes,
            StubKind::Transform,
            StubKind::ReverseOrientation
        ]
    );
    let mut i = run("Translate 1 2 3\nWorldBegin\nMaterial \"matte\"");
    for keyword in [StubKind::ObjectInstance, StubKind::MediumInterface, StubKind::Include] {
        assert_eq!(i.step(&Directive::Stub { keyword }), Ok(()));
    }
    assert_eq!(i.phase(), Phase::World);
    assert_eq!(i.graphics().depth(), 1);
    assert_eq!(i.graphics().current().material, b"matte".to_vec());
    assert!(i.options().primitives.is_empty());
    let options = load("ObjectBegin \"a\"\nWorldBegin\nObjectInstance \"a\"\nWorldEnd").unwrap();
    assert!(options.primitives.is_empty());
}

#[test]
fn compose_with_the_wrong_number_of_numbers_is_refused() {
    let mut i = Interpreter::new(catalog());
    let d = Directive::Compose { transform: TransformKind::Translate, args: vec![number("1"), number("2")] };
    assert_eq!(i.step(&d), Err(SceneError::ArityError));
    assert!(i.transforms().current().t[0].factors.is_empty());
}

#[test]
fn object_directive_built_by_hand() {
    let mut i = run("WorldBegin");
    let d = Directive::Object {
        object: ObjectKind::Shape,
        name: b"sphere".to_vec(),
        params: vec![RawParam {
            declared: b"float".to_vec(),
            name: b"radius".to_vec(),
            values: vec![RawValue::Number { position: 0, number: number("2.5") }],
        }],
    };
    assert_eq!(i.step(&d), Ok(()));
    match i.options().primitives[0].params.find(b"radius") {
        Some(ParamValue::Float(n)) => assert_eq!(float_of(n), 2.5),
        _ => panic!("radius is no float"),
    }
}

#[test]
fn handles_refer_to_recorded_objects() {
    let options = load(&world(
        "MakeNamedMaterial \"gold\"\nTexture \"a\" \"float\" \"constant\"\nAttributeBegin\nMakeNamedMaterial \"matte\"\nTexture \"b\" \"spectrum\" \"imagemap\"\nShape \"sphere\"\nAttributeEnd\nTexture \"c\" \"float\" \"constant\"\nShape \"cylinder\"",
    ))
    .unwrap();
    assert_eq!(options.materials.len(), 2);
    assert_eq!(options.textures.len(), 3);
    for primitive in options.primitives.iter() {
        for binding in primitive.state.named_materials.iter() {
            assert_eq!(options.materials[binding.handle].name, binding.name);
        }
        for binding in primitive.state.float_textures.iter() {
            assert_eq!(options.textures[binding.handle].name, binding.name);
            assert_eq!(options.textures[binding.handle].kind, TextureKind::Float);
        }
        for binding in primitive.state.spectrum_textures.iter() {
            assert_eq!(options.textures[binding.handle].name, binding.name);
            assert_eq!(options.textures[binding.handle].kind, TextureKind::Spectrum);
        }
    }
    let inner = &options.primitives[0].state;
    let outer = &options.primitives[1].state;
    assert_eq!(inner.named_materials.len(), 2);
    assert_eq!(outer.named_materials.len(), 1);
    assert_eq!(inner.spectrum_textures.len(), 1);
    assert_eq!(outer.spectrum_textures.len(), 0);
    assert_eq!(outer.float_textures.len(), 2);
    assert_eq!(outer.float_textures[1].handle, 2);
}
