use pbrt::directive::{keyword, Directive, Keyword, ObjectKind, StubKind};
use pbrt::error::SceneError;
use pbrt::number::{parse_integer, scan_number};
use pbrt::params::{param_type, resolve, resolve_all, ParamSet, ParamType, ParamValue, RawParam, RawValue};
use pbrt::parser::{parse_scene, split};
use pbrt::text::{listed, name, same_bytes};
use pbrt::token::{tokenize, Token, TokenKind};
use pbrt::transform::{Factor, Transform, TransformKind, TransformSet, TransformStack};
use pbrt::Number;

fn number(text: &str) -> Number {
    Number::parse(text.as_bytes()).unwrap()
}

fn float_of(n: &Number) -> f32 {
    std::str::from_utf8(n.as_bytes()).unwrap().parse::<f32>().unwrap()
}

fn raw(declared: &str, name: &str, values: Vec<RawValue>) -> RawParam {
    RawParam { declared: declared.as_bytes().to_vec(), name: name.as_bytes().to_vec(), values }
}

fn num(position: usize, text: &str) -> RawValue {
    RawValue::Number { position, number: number(text) }
}

fn text(position: usize, text: &str) -> RawValue {
    RawValue::Text { position, text: text.as_bytes().to_vec() }
}

fn parse_error(text: &str) -> usize {
    match parse_scene(text.as_bytes()) {
        Err(SceneError::ParseError { position }) => position,
        _ => panic!("no parse error"),
    }
}

#[test]
fn number_literals() {
    for good in ["0", "90", "-1", "+1", "1.5", "1.", ".5", "-.5e3", "1e5", "1E-5", "2.e+7", "007"] {
        assert!(Number::parse(good.as_bytes()).is_some(), "{}", good);
        assert_eq!(Number::parse(good.as_bytes()).unwrap().as_bytes(), &good.as_bytes().to_vec());
        assert!(good.parse::<f32>().is_ok(), "{}", good);
    }
    for bad in ["", ".", "-", "+", "e5", "1e", "1e+", "1.5.2", "abc", "1 ", " 1", "--1", "1x"] {
        assert!(Number::parse(bad.as_bytes()).is_none(), "{}", bad);
    }
}

#[test]
fn number_scanner_takes_the_longest_literal() {
    assert_eq!(scan_number(b"12.5e3 rest", 0), Some(6));
    assert_eq!(scan_number(b"1e", 0), Some(1));
    assert_eq!(scan_number(b"1e+x", 0), Some(1));
    assert_eq!(scan_number(b"1.5.2", 0), Some(3));
    assert_eq!(scan_number(b"x-3", 1), Some(3));
    assert_eq!(scan_number(b".x", 0), None);
    assert_eq!(scan_number(b"", 0), None);
}

#[test]
fn number_values() {
    assert_eq!(float_of(&number("90")), 90.0);
    assert_eq!(float_of(&number("-.5e1")), -5.0);
    assert_eq!(float_of(&Number::zero()), 0.0);
    assert_eq!(float_of(&Number::one()), 1.0);
    assert!(number("1.0").same(&number("1.0")));
    assert!(!number("1.0").same(&number("1")));
    assert!(number("2").clone().same(&number("2")));
}

#[test]
fn integer_literals() {
    assert_eq!(parse_integer(b"0"), Some(0));
    assert_eq!(parse_integer(b"-0"), Some(0));
    assert_eq!(parse_integer(b"8"), Some(8));
    assert_eq!(parse_integer(b"+42"), Some(42));
    assert_eq!(parse_integer(b"-17"), Some(-17));
    assert_eq!(parse_integer(b"2147483647"), Some(2147483647));
    assert_eq!(parse_integer(b"-2147483648"), Some(-2147483648));
    assert_eq!(parse_integer(b"2147483648"), None);
    assert_eq!(parse_integer(b"-2147483649"), None);
    assert_eq!(parse_integer(b"99999999999999999999999"), None);
    assert_eq!(parse_integer(b"007"), None);
    assert_eq!(parse_integer(b"00"), None);
    assert_eq!(parse_integer(b"1.5"), None);
    assert_eq!(parse_integer(b""), None);
    assert_eq!(parse_integer(b"-"), None);
}

#[test]
fn tokens_of_a_text() {
    let toks = tokenize(b"Shape \"sphere\" [ 1.5 ]\n");
    assert_eq!(
        toks,
        vec![
            Token { kind: TokenKind::Word, start: 0, end: 5 },
            Token { kind: TokenKind::Text, start: 6, end: 14 },
            Token { kind: TokenKind::Open, start: 15, end: 16 },
            Token { kind: TokenKind::Number, start: 17, end: 20 },
            Token { kind: TokenKind::Close, start: 21, end: 22 },
            Token { kind: TokenKind::End, start: 23, end: 23 },
        ]
    );
    assert_eq!(tokenize(b""), vec![Token { kind: TokenKind::End, start: 0, end: 0 }]);
    assert_eq!(tokenize(b" \t\r\n"), vec![Token { kind: TokenKind::End, start: 4, end: 4 }]);
}

#[test]
fn tokens_stop_at_the_first_bad_byte() {
    let toks = tokenize(b"A # B");
    assert_eq!(toks.len(), 2);
    assert_eq!(toks[1], Token { kind: TokenKind::Invalid, start: 2, end: 2 });
    let toks = tokenize(b"A \"open");
    assert_eq!(toks[1], Token { kind: TokenKind::Invalid, start: 2, end: 2 });
    let toks = tokenize(b"12abc");
    assert_eq!(toks[0], Token { kind: TokenKind::Number, start: 0, end: 2 });
    assert_eq!(toks[1], Token { kind: TokenKind::Word, start: 2, end: 5 });
}

#[test]
fn keywords() {
    assert_eq!(keyword(b"LookAt"), Some(Keyword::Compose(TransformKind::LookAt)));
    assert_eq!(keyword(b"ConcatTransform"), Some(Keyword::Compose(TransformKind::Concat)));
    assert_eq!(keyword(b"Transform"), Some(Keyword::Stub(StubKind::Transform)));
    assert_eq!(keyword(b"TransformBegin"), Some(Keyword::TransformBegin));
    assert_eq!(keyword(b"Material"), Some(Keyword::Object(ObjectKind::Material)));
    assert_eq!(keyword(b"MakeNamedMaterial"), Some(Keyword::Object(ObjectKind::MakeNamedMaterial)));
    assert_eq!(keyword(b"NamedMaterial"), Some(Keyword::NamedMaterial));
    assert_eq!(keyword(b"WorldEnd"), Some(Keyword::WorldEnd));
    assert_eq!(keyword(b"lookat"), None);
    assert_eq!(keyword(b"Shapes"), None);
    assert_eq!(keyword(b""), None);
}

#[test]
fn names_and_declarations() {
    assert!(name(b"sphere"));
    assert!(name(b"image.tga"));
    assert!(name(b"_x9"));
    assert!(!name(b""));
    assert!(!name(b"9x"));
    assert!(!name(b".hidden"));
    assert!(!name(b"a b"));
    assert!(!name(b"dir/file"));
    assert_eq!(split(b"float fov"), Some((b"float".to_vec(), b"fov".to_vec())));
    assert_eq!(split(b"point   P"), Some((b"point".to_vec(), b"P".to_vec())));
    assert_eq!(split(b"spectrum"), Some((b"spectrum".to_vec(), Vec::new())));
    assert_eq!(split(b""), None);
    assert_eq!(split(b"float "), None);
    assert_eq!(split(b"float 9x"), None);
    assert_eq!(split(b"float fov x"), None);
    assert_eq!(split(b"float fo.v"), None);
    assert!(same_bytes(b"abc", b"abc"));
    assert!(!same_bytes(b"abc", b"abd"));
    assert!(!same_bytes(b"abc", b"ab"));
    assert!(listed(&vec![b"a".to_vec(), b"b".to_vec()], b"b"));
    assert!(!listed(&vec![b"a".to_vec(), b"b".to_vec()], b"c"));
}

#[test]
fn statements_of_a_scene() {
    let text = "LookAt 0 0 0 0 0 1 0 1 0\nCamera \"perspective\" \"float fov\" [90]\nWorldBegin\nShape \"sphere\" \"float radius\" [1]\nWorldEnd";
    let statements = parse_scene(text.as_bytes()).unwrap();
    assert_eq!(statements.len(), 5);
    assert_eq!(statements[0].position, 0);
    assert_eq!(statements[1].position, 25);
    match &statements[0].directive {
        Directive::Compose { transform, args } => {
            assert_eq!(*transform, TransformKind::LookAt);
            assert_eq!(args.len(), 9);
            assert_eq!(float_of(&args[5]), 1.0);
        },
        _ => panic!("no LookAt"),
    }
    match &statements[1].directive {
        Directive::Object { object, name, params } => {
            assert_eq!(*object, ObjectKind::Camera);
            assert_eq!(name, &b"perspective".to_vec());
            assert_eq!(params.len(), 1);
            assert_eq!(params[0].declared, b"float".to_vec());
            assert_eq!(params[0].name, b"fov".to_vec());
            assert_eq!(params[0].values.len(), 1);
            match &params[0].values[0] {
                RawValue::Number { position, number } => {
                    assert_eq!(*position, 59);
                    assert_eq!(number.as_bytes(), &b"90".to_vec());
                },
                _ => panic!("no number"),
            }
        },
        _ => panic!("no Camera"),
    }
    assert!(matches!(statements[2].directive, Directive::WorldBegin));
    assert!(matches!(statements[4].directive, Directive::WorldEnd));
}

#[test]
fn texture_statement() {
    let statements = parse_scene(
        b"Texture \"mydiffuse\" \"spectrum\" \"imagemap\" \"string filename\" \"image.tga\"\nWorldEnd \n",
    )
    .unwrap();
    match &statements[0].directive {
        Directive::Texture { name, value_type, class, params } => {
            assert_eq!(name, &b"mydiffuse".to_vec());
            assert_eq!(value_type, &b"spectrum".to_vec());
            assert_eq!(class, &b"imagemap".to_vec());
            assert_eq!(params.len(), 1);
            assert_eq!(params[0].name, b"filename".to_vec());
        },
        _ => panic!("no Texture"),
    }
}

#[test]
fn parse_errors_carry_the_position() {
    assert_eq!(parse_error(""), 0);
    assert_eq!(parse_error("WorldBegin\n"), 11);
    assert_eq!(parse_error("WorldEnd WorldBegin"), 9);
    assert_eq!(parse_error("Bogus\nWorldEnd"), 0);
    assert_eq!(parse_error("Identity Bogus\nWorldEnd"), 9);
    assert_eq!(parse_error("Rotate 90 0 x 1\nWorldEnd"), 12);
    assert_eq!(parse_error("Translate 1 2\nWorldEnd"), 14);
    assert_eq!(parse_error("Shape \"sphere\" \"float radius\" [1\nWorldEnd"), 33);
    assert_eq!(parse_error("Shape \"sphere\" \"float radius\" [1"), 32);
    assert_eq!(parse_error("Shape \"sphere\" \"float radius\" []\nWorldEnd"), 31);
    assert_eq!(parse_error("Shape \"sphere\" \"float radius\" 1\nWorldEnd"), 30);
    assert_eq!(parse_error("Shape sphere\nWorldEnd"), 6);
    assert_eq!(parse_error("Shape \"sp here\"\nWorldEnd"), 6);
    assert_eq!(parse_error("Shape \"sphere\" \"float 9\" [1]\nWorldEnd"), 15);
    assert_eq!(parse_error("Shape \"sphere\nWorldEnd"), 6);
    assert_eq!(parse_error("90\nWorldEnd"), 0);
    assert_eq!(parse_error("Identity @\nWorldEnd"), 9);
    assert_eq!(parse_error("Include [\"a\" \nWorldEnd"), 14);
    assert_eq!(parse_error("NamedMaterial\nWorldEnd"), 14);
}

#[test]
fn float_parameter_resolves() {
    let p = resolve(&raw("float", "fov", vec![num(0, "90")])).ok().unwrap();
    assert_eq!(p.name, b"fov".to_vec());
    match p.value {
        ParamValue::Float(n) => assert_eq!(float_of(&n), 90.0),
        _ => panic!("no float"),
    }
}

#[test]
fn point_parameter_resolves() {
    let p = resolve(&raw("point", "P", vec![num(0, "1"), num(2, "2"), num(4, "3")])).ok().unwrap();
    match p.value {
        ParamValue::Point(x, y, z) => {
            assert_eq!((float_of(&x), float_of(&y), float_of(&z)), (1.0, 2.0, 3.0));
        },
        _ => panic!("no point"),
    }
}

#[test]
fn point_with_two_numbers_fails() {
    assert_eq!(
        resolve(&raw("point", "P", vec![num(0, "1"), num(2, "2")])).err(),
        Some(SceneError::ArityError)
    );
    assert_eq!(
        pbrt::load_scene(
            b"WorldBegin\nShape \"sphere\" \"point P\" [1 2]\nWorldEnd",
            pbrt::Catalog { shapes: vec![b"sphere".to_vec()], lights: vec![], materials: vec![], textures: vec![] }
        )
        .err()
        .map(|f| f.error),
        Some(SceneError::ArityError)
    );
}

#[test]
fn every_type_resolves() {
    assert!(matches!(resolve(&raw("integer", "n", vec![num(0, "-8")])).ok().unwrap().value, ParamValue::Integer(-8)));
    assert!(matches!(resolve(&raw("string", "f", vec![text(0, "a.png")])).ok().unwrap().value, ParamValue::Str(s) if s == b"a.png".to_vec()));
    assert!(matches!(resolve(&raw("rgb", "c", vec![num(0, "1"), num(0, ".5"), num(0, "0")])).ok().unwrap().value, ParamValue::Rgb(_, g, _) if float_of(&g) == 0.5));
    assert!(matches!(resolve(&raw("spectrum", "", vec![text(0, "imagemap")])).ok().unwrap().value, ParamValue::Spectrum(s) if s == b"imagemap".to_vec()));
    assert!(matches!(resolve(&raw("texture", "Kd", vec![text(0, "wood")])).ok().unwrap().value, ParamValue::Texture(s) if s == b"wood".to_vec()));
    assert_eq!(param_type(b"float"), Some(ParamType::Float));
    assert_eq!(param_type(b"rgb"), Some(ParamType::Rgb));
    assert_eq!(param_type(b"color"), None);
}

#[test]
fn resolution_failures() {
    assert_eq!(resolve(&raw("colour", "c", vec![num(0, "1")])).err(), Some(SceneError::UnknownParamType));
    assert_eq!(resolve(&raw("colour", "c", vec![])).err(), Some(SceneError::UnknownParamType));
    assert_eq!(resolve(&raw("float", "x", vec![num(0, "1"), num(2, "2")])).err(), Some(SceneError::ArityError));
    assert_eq!(resolve(&raw("float", "x", vec![])).err(), Some(SceneError::ArityError));
    assert_eq!(resolve(&raw("rgb", "c", vec![num(0, "1")])).err(), Some(SceneError::ArityError));
    assert_eq!(resolve(&raw("float", "x", vec![text(7, "abc")])).err(), Some(SceneError::ParseError { position: 7 }));
    assert_eq!(resolve(&raw("string", "x", vec![num(9, "1")])).err(), Some(SceneError::ParseError { position: 9 }));
    assert_eq!(resolve(&raw("integer", "x", vec![num(3, "1.5")])).err(), Some(SceneError::ParseError { position: 3 }));
    assert_eq!(resolve(&raw("integer", "x", vec![num(3, "007")])).err(), Some(SceneError::ParseError { position: 3 }));
    assert_eq!(resolve(&raw("integer", "x", vec![num(3, "4294967296")])).err(), Some(SceneError::ParseError { position: 3 }));
    assert_eq!(
        resolve(&raw("point", "P", vec![num(1, "1"), text(5, "a"), text(9, "b")])).err(),
        Some(SceneError::ParseError { position: 5 })
    );
}

#[test]
fn parameter_lists_resolve_in_order() {
    let set: ParamSet = resolve_all(&vec![
        raw("float", "a", vec![num(0, "1")]),
        raw("integer", "b", vec![num(0, "2")]),
        raw("float", "a", vec![num(0, "3")]),
    ])
    .ok()
    .unwrap();
    assert_eq!(set.len(), 3);
    assert_eq!(set.entries[1].name, b"b".to_vec());
    assert!(matches!(set.find(b"a"), Some(ParamValue::Float(n)) if float_of(n) == 3.0));
    assert!(matches!(set.find(b"b"), Some(ParamValue::Integer(2))));
    assert!(set.find(b"c").is_none());
    assert_eq!(
        resolve_all(&vec![
            raw("float", "a", vec![num(0, "1")]),
            raw("float", "b", vec![]),
            raw("colour", "c", vec![]),
        ])
        .err(),
        Some(SceneError::ArityError)
    );
    assert_eq!(ParamSet::default().len(), 0);
    assert_eq!(set.clone().len(), 3);
}

#[test]
fn transform_chains() {
    let mut t = Transform::identity();
    t.append(Factor { kind: TransformKind::Translate, inverse: false, args: vec![number("1"), number("2"), number("3")] });
    t.append(Factor { kind: TransformKind::Rotate, inverse: false, args: vec![number("90"), number("0"), number("0"), number("1")] });
    let inverse = t.inverse();
    assert_eq!(inverse.factors.len(), 2);
    assert_eq!(inverse.factors[0].kind, TransformKind::Rotate);
    assert!(inverse.factors[0].inverse);
    assert_eq!(inverse.factors[1].kind, TransformKind::Translate);
    assert!(inverse.factors[1].inverse);
    assert!(inverse.inverse().same(&t));
    assert!(!inverse.same(&t));
    let product = t.compose(&inverse);
    assert_eq!(product.factors.len(), 4);
    assert!(product.factors[1].same(&t.factors[1]));
    assert!(product.factors[2].same(&inverse.factors[0]));
    assert!(product.inverse().same(&t.compose(&inverse)));
    assert!(Transform::identity().inverse().same(&Transform::identity()));
}

#[test]
fn is_animated() {
    let rest = TransformSet::default();
    assert!(!rest.is_animated());
    let mut moving = TransformSet::default();
    moving.t[1].append(Factor { kind: TransformKind::Scale, inverse: false, args: vec![number("2"), number("2"), number("2")] });
    assert!(moving.is_animated());
    moving.t[0].append(Factor { kind: TransformKind::Scale, inverse: false, args: vec![number("2"), number("2"), number("2")] });
    assert!(!moving.is_animated());
    let mut other = TransformSet::default();
    other.append(TransformKind::Scale, &vec![number("2"), number("2"), number("2")]);
    assert!(!other.is_animated());
    assert!(other.inverse().t[0].factors[0].inverse);
    assert!(other.clone().t[1].same(&moving.t[1]));
}

#[test]
fn transform_stack() {
    let mut stack = TransformStack::new();
    assert_eq!(stack.depth(), 1);
    assert_eq!(stack.pop(), Err(SceneError::StackUnderflow));
    assert_eq!(stack.depth(), 1);
    assert_eq!(stack.apply(TransformKind::Translate, &vec![number("1"), number("2"), number("3")]), Ok(()));
    stack.push();
    assert_eq!(stack.depth(), 2);
    assert_eq!(stack.current().t[0].factors.len(), 1);
    assert_eq!(stack.apply(TransformKind::Rotate, &vec![number("1")]), Err(SceneError::ArityError));
    assert_eq!(stack.apply(TransformKind::LookAt, &vec![number("0"); 9]), Ok(()));
    assert_eq!(stack.current().t[1].factors.len(), 2);
    stack.identity();
    assert!(stack.current().t[0].factors.is_empty());
    assert_eq!(stack.pop(), Ok(()));
    assert_eq!(stack.current().t[0].factors.len(), 1);
    stack.push();
    stack.reset();
    assert_eq!(stack.depth(), 1);
    assert!(stack.current().t[1].factors.is_empty());
    assert_eq!(stack.clone().depth(), 1);
}
