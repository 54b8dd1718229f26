//! Parameter lists. A directive carries parameters as they stand in the
//! text: a declaration `"type name"` and a list of values. Resolving turns
//! each of them into a typed entry of a [`ParamSet`].

use crate::error::SceneError;
use crate::number::{integer_value, is_integer, parse_integer, Number};
use crate::text::{same_bytes, views};
use vstd::prelude::*;
use vstd::string::StringSliceAdditionalSpecFns;

verus! {

/// The bytes of a string literal.
pub open spec fn lit(s: &str) -> Seq<u8> {
    s.spec_bytes()
}

/// Whether `bytes` spells the literal `s`.
pub fn spells(bytes: &[u8], s: &str) -> (r: bool)
    ensures
        r == (bytes@ == lit(s)),
{
    same_bytes(bytes, s.as_bytes())
}

/// The types that a parameter can declare.
#[derive(Clone, Copy, Debug, PartialEq, Eq, Structural)]
pub enum ParamType {
    Float,
    Integer,
    Str,
    Point,
    Rgb,
    Spectrum,
    Texture,
}

/// A value of a parameter as the text holds it, with the byte offset at
/// which it stands.
#[derive(Debug)]
pub enum RawValue {
    Number { position: usize, number: Number },
    Text { position: usize, text: Vec<u8> },
}

pub enum RawValueView {
    Number { position: usize, value: Seq<u8> },
    Text { position: usize, value: Seq<u8> },
}

impl View for RawValue {
    type V = RawValueView;

    open spec fn view(&self) -> RawValueView {
        match *self {
            RawValue::Number { position, number } => RawValueView::Number {
                position,
                value: number@,
            },
            RawValue::Text { position, text } => RawValueView::Text { position, value: text@ },
        }
    }
}

impl RawValueView {
    pub open spec fn position(self) -> usize {
        match self {
            RawValueView::Number { position, .. } => position,
            RawValueView::Text { position, .. } => position,
        }
    }

    pub open spec fn text(self) -> Seq<u8> {
        match self {
            RawValueView::Number { value, .. } => value,
            RawValueView::Text { value, .. } => value,
        }
    }
}

/// A parameter as the text holds it: the declared type, the declared name
/// (empty where the declaration has none) and the values.
#[derive(Debug)]
pub struct RawParam {
    pub declared: Vec<u8>,
    pub name: Vec<u8>,
    pub values: Vec<RawValue>,
}

pub struct RawParamView {
    pub declared: Seq<u8>,
    pub name: Seq<u8>,
    pub values: Seq<RawValueView>,
}

impl View for RawParam {
    type V = RawParamView;

    open spec fn view(&self) -> RawParamView {
        RawParamView { declared: self.declared@, name: self.name@, values: views(self.values@) }
    }
}

/// The value of a resolved parameter. A float, and each component of a
/// point or of a colour, is a number literal.
#[derive(Debug)]
pub enum ParamValue {
    Float(Number),
    Integer(i32),
    Str(Vec<u8>),
    Point(Number, Number, Number),
    Rgb(Number, Number, Number),
    Spectrum(Vec<u8>),
    Texture(Vec<u8>),
}

pub enum ParamValueView {
    Float(Seq<u8>),
    Integer(i32),
    Str(Seq<u8>),
    Point(Seq<u8>, Seq<u8>, Seq<u8>),
    Rgb(Seq<u8>, Seq<u8>, Seq<u8>),
    Spectrum(Seq<u8>),
    Texture(Seq<u8>),
}

impl View for ParamValue {
    type V = ParamValueView;

    open spec fn view(&self) -> ParamValueView {
        match *self {
            ParamValue::Float(n) => ParamValueView::Float(n@),
            ParamValue::Integer(i) => ParamValueView::Integer(i),
            ParamValue::Str(s) => ParamValueView::Str(s@),
            ParamValue::Point(x, y, z) => ParamValueView::Point(x@, y@, z@),
            ParamValue::Rgb(r, g, b) => ParamValueView::Rgb(r@, g@, b@),
            ParamValue::Spectrum(s) => ParamValueView::Spectrum(s@),
            ParamValue::Texture(s) => ParamValueView::Texture(s@),
        }
    }
}

impl ParamValueView {
    /// The type that an entry with this value has.
    pub open spec fn param_type(self) -> ParamType {
        match self {
            ParamValueView::Float(_) => ParamType::Float,
            ParamValueView::Integer(_) => ParamType::Integer,
            ParamValueView::Str(_) => ParamType::Str,
            ParamValueView::Point(_, _, _) => ParamType::Point,
            ParamValueView::Rgb(_, _, _) => ParamType::Rgb,
            ParamValueView::Spectrum(_) => ParamType::Spectrum,
            ParamValueView::Texture(_) => ParamType::Texture,
        }
    }
}

/// A resolved parameter: a name and a typed value.
#[derive(Debug)]
pub struct Param {
    pub name: Vec<u8>,
    pub value: ParamValue,
}

pub struct ParamView {
    pub name: Seq<u8>,
    pub value: ParamValueView,
}

impl View for Param {
    type V = ParamView;

    open spec fn view(&self) -> ParamView {
        ParamView { name: self.name@, value: self.value@ }
    }
}

/// The resolved parameters of a directive, in the order of the text. Where
/// a name occurs more than once, the last entry is the one that counts.
#[derive(Debug)]
pub struct ParamSet {
    pub entries: Vec<Param>,
}

impl View for ParamSet {
    type V = Seq<ParamView>;

    open spec fn view(&self) -> Seq<ParamView> {
        views(self.entries@)
    }
}

/// The type that a declaration names, if it is one of the seven.
pub open spec fn param_type_of(declared: Seq<u8>) -> Option<ParamType> {
    if declared == lit("float") {
        Some(ParamType::Float)
    } else if declared == lit("integer") {
        Some(ParamType::Integer)
    } else if declared == lit("string") {
        Some(ParamType::Str)
    } else if declared == lit("point") {
        Some(ParamType::Point)
    } else if declared == lit("rgb") {
        Some(ParamType::Rgb)
    } else if declared == lit("spectrum") {
        Some(ParamType::Spectrum)
    } else if declared == lit("texture") {
        Some(ParamType::Texture)
    } else {
        None
    }
}

/// How many values a parameter of the given type has.
pub open spec fn arity(ty: ParamType) -> nat {
    match ty {
        ParamType::Point => 3,
        ParamType::Rgb => 3,
        _ => 1,
    }
}

/// Whether the values of a parameter of the given type are numbers.
pub open spec fn is_numeric(ty: ParamType) -> bool {
    ty is Float || ty is Integer || ty is Point || ty is Rgb
}

/// Whether a value can stand in a parameter of the given type: a number
/// where the type is numeric, an integer literal in the range of `i32` where
/// it is `integer`, a string otherwise.
pub open spec fn fits(ty: ParamType, v: RawValueView) -> bool {
    match v {
        RawValueView::Number { value, .. } => {
            &&& is_numeric(ty)
            &&& ty is Integer ==> is_integer(value) && i32::MIN <= integer_value(value) <= i32::MAX
        },
        RawValueView::Text { .. } => !is_numeric(ty),
    }
}

/// The index of the first value from `i` on that does not fit the type, or
/// the number of values where all fit.
pub open spec fn first_misfit(ty: ParamType, values: Seq<RawValueView>, i: int) -> int
    decreases values.len() - i,
{
    if 0 <= i < values.len() && fits(ty, values[i]) {
        first_misfit(ty, values, i + 1)
    } else {
        i
    }
}

/// The typed value that values of the right number and kind stand for.
pub open spec fn typed_value(ty: ParamType, values: Seq<RawValueView>) -> ParamValueView {
    match ty {
        ParamType::Float => ParamValueView::Float(values[0].text()),
        ParamType::Integer => ParamValueView::Integer(integer_value(values[0].text()) as i32),
        ParamType::Str => ParamValueView::Str(values[0].text()),
        ParamType::Point => ParamValueView::Point(
            values[0].text(),
            values[1].text(),
            values[2].text(),
        ),
        ParamType::Rgb => ParamValueView::Rgb(values[0].text(), values[1].text(), values[2].text()),
        ParamType::Spectrum => ParamValueView::Spectrum(values[0].text()),
        ParamType::Texture => ParamValueView::Texture(values[0].text()),
    }
}

/// What resolving one parameter gives. An unknown type is reported first,
/// then a wrong number of values, then the first value of the wrong kind,
/// at its position.
pub open spec fn resolve_spec(raw: RawParamView) -> Result<ParamView, SceneError> {
    match param_type_of(raw.declared) {
        None => Err(SceneError::UnknownParamType),
        Some(ty) => {
            if raw.values.len() != arity(ty) {
                Err(SceneError::ArityError)
            } else {
                let k = first_misfit(ty, raw.values, 0);
                if k < raw.values.len() {
                    Err(SceneError::ParseError { position: raw.values[k].position() })
                } else {
                    Ok(ParamView { name: raw.name, value: typed_value(ty, raw.values) })
                }
            }
        },
    }
}

/// The index of the first parameter from `i` on that does not resolve, or
/// the number of parameters where all do.
pub open spec fn first_failure(raws: Seq<RawParamView>, i: int) -> int
    decreases raws.len() - i,
{
    if 0 <= i < raws.len() && resolve_spec(raws[i]) is Ok {
        first_failure(raws, i + 1)
    } else {
        i
    }
}

/// What resolving a parameter list gives: the entries in the order of the
/// list, or the failure of the first parameter that does not resolve.
pub open spec fn resolve_all_spec(raws: Seq<RawParamView>) -> Result<Seq<ParamView>, SceneError> {
    let k = first_failure(raws, 0);
    if k < raws.len() {
        Err(resolve_spec(raws[k])->Err_0)
    } else {
        Ok(Seq::new(raws.len(), |i: int| resolve_spec(raws[i])->Ok_0))
    }
}

/// The value of the last entry of the given name.
pub open spec fn lookup(ps: Seq<ParamView>, name: Seq<u8>) -> Option<ParamValueView>
    decreases ps.len(),
{
    if ps.len() == 0 {
        None
    } else if ps.last().name == name {
        Some(ps.last().value)
    } else {
        lookup(ps.drop_last(), name)
    }
}

pub proof fn lemma_first_misfit(ty: ParamType, values: Seq<RawValueView>, i: int)
    requires
        0 <= i <= values.len(),
    ensures
        i <= first_misfit(ty, values, i) <= values.len(),
        forall|j: int| i <= j < first_misfit(ty, values, i) ==> fits(ty, #[trigger] values[j]),
        first_misfit(ty, values, i) < values.len() ==> !fits(
            ty,
            values[first_misfit(ty, values, i)],
        ),
    decreases values.len() - i,
{
    if i < values.len() && fits(ty, values[i]) {
        lemma_first_misfit(ty, values, i + 1);
    }
}

/// The type that a declaration names.
pub fn param_type(declared: &[u8]) -> (r: Option<ParamType>)
    ensures
        r == param_type_of(declared@),
{
    if spells(declared, "float") {
        Some(ParamType::Float)
    } else if spells(declared, "integer") {
        Some(ParamType::Integer)
    } else if spells(declared, "string") {
        Some(ParamType::Str)
    } else if spells(declared, "point") {
        Some(ParamType::Point)
    } else if spells(declared, "rgb") {
        Some(ParamType::Rgb)
    } else if spells(declared, "spectrum") {
        Some(ParamType::Spectrum)
    } else if spells(declared, "texture") {
        Some(ParamType::Texture)
    } else {
        None
    }
}

impl RawValue {
    /// The byte offset at which the value stands in the text.
    pub fn position(&self) -> (r: usize)
        ensures
            r == self@.position(),
    {
        match self {
            RawValue::Number { position, .. } => *position,
            RawValue::Text { position, .. } => *position,
        }
    }

    /// Whether the value can stand in a parameter of the given type.
    pub fn fits(&self, ty: ParamType) -> (r: bool)
        ensures
            r == fits(ty, self@),
    {
        let numeric: bool = match ty {
            ParamType::Float => true,
            ParamType::Integer => true,
            ParamType::Point => true,
            ParamType::Rgb => true,
            _ => false,
        };
        match self {
            RawValue::Number { number: value, .. } => {
                match ty {
                    ParamType::Integer => parse_integer(value.as_bytes().as_slice()).is_some(),
                    _ => numeric,
                }
            },
            RawValue::Text { .. } => !numeric,
        }
    }

    /// The number that the value is. Where the value is a string, zero.
    fn number(&self) -> (r: Number)
        ensures
            self@ is Number ==> r@ == self@.text(),
            self@ is Text ==> r@ == seq![48u8],
    {
        match self {
            RawValue::Number { number: value, .. } => value.clone(),
            RawValue::Text { .. } => Number::zero(),
        }
    }

    /// The string that the value is. Where the value is a number, its
    /// literal.
    fn string(&self) -> (r: Vec<u8>)
        ensures
            r@ == self@.text(),
    {
        match self {
            RawValue::Number { number: value, .. } => value.as_bytes().clone(),
            RawValue::Text { text: value, .. } => value.clone(),
        }
    }

    /// The integer that the value is. Where the value is none, zero.
    fn integer(&self) -> (r: i32)
        ensures
            fits(ParamType::Integer, self@) ==> r == integer_value(self@.text()) as i32,
            !fits(ParamType::Integer, self@) ==> r == 0,
    {
        match self {
            RawValue::Number { number: value, .. } => {
                match parse_integer(value.as_bytes().as_slice()) {
                    Some(i) => i,
                    None => 0,
                }
            },
            RawValue::Text { .. } => 0,
        }
    }
}

impl Clone for RawValue {
    fn clone(&self) -> (r: Self)
        ensures
            r@ == self@,
    {
        match self {
            RawValue::Number { position, number } => RawValue::Number {
                position: *position,
                number: number.clone(),
            },
            RawValue::Text { position, text } => RawValue::Text {
                position: *position,
                text: text.clone(),
            },
        }
    }
}

impl Clone for RawParam {
    fn clone(&self) -> (r: Self)
        ensures
            r@ == self@,
    {
        let values = self.values.clone();
        assert(views(values@) =~= views(self.values@));
        RawParam { declared: self.declared.clone(), name: self.name.clone(), values }
    }
}

impl Clone for ParamValue {
    fn clone(&self) -> (r: Self)
        ensures
            r@ == self@,
    {
        match self {
            ParamValue::Float(n) => ParamValue::Float(n.clone()),
            ParamValue::Integer(i) => ParamValue::Integer(*i),
            ParamValue::Str(s) => ParamValue::Str(s.clone()),
            ParamValue::Point(x, y, z) => ParamValue::Point(x.clone(), y.clone(), z.clone()),
            ParamValue::Rgb(x, y, z) => ParamValue::Rgb(x.clone(), y.clone(), z.clone()),
            ParamValue::Spectrum(s) => ParamValue::Spectrum(s.clone()),
            ParamValue::Texture(s) => ParamValue::Texture(s.clone()),
        }
    }
}

impl Clone for Param {
    fn clone(&self) -> (r: Self)
        ensures
            r@ == self@,
    {
        Param { name: self.name.clone(), value: self.value.clone() }
    }
}

impl Clone for ParamSet {
    fn clone(&self) -> (r: Self)
        ensures
            r@ == self@,
    {
        let entries = self.entries.clone();
        assert(views(entries@) =~= views(self.entries@));
        ParamSet { entries }
    }
}

impl Default for ParamSet {
    fn default() -> (r: Self)
        ensures
            r@ == Seq::<ParamView>::empty(),
    {
        let r = ParamSet { entries: Vec::new() };
        assert(r@ =~= Seq::<ParamView>::empty());
        r
    }
}

impl ParamSet {
    /// The number of entries.
    pub fn len(&self) -> (r: usize)
        ensures
            r == self@.len(),
    {
        self.entries.len()
    }

    /// The value of the last entry of the given name.
    pub fn find(&self, name: &[u8]) -> (r: Option<&ParamValue>)
        ensures
            match r {
                Some(v) => lookup(self@, name@) == Some(v@),
                None => lookup(self@, name@) is None,
            },
    {
        let mut i: usize = self.entries.len();
        assert(self@.subrange(0, i as int) =~= self@);
        while i > 0
            invariant
                i <= self.entries.len(),
                lookup(self@, name@) == lookup(self@.subrange(0, i as int), name@),
            decreases i,
        {
            let ghost prefix = self@.subrange(0, i as int);
            assert(prefix.last() == self.entries[i - 1]@);
            assert(prefix.drop_last() =~= self@.subrange(0, i - 1));
            if same_bytes(self.entries[i - 1].name.as_slice(), name) {
                return Some(&self.entries[i - 1].value);
            }
            i -= 1;
        }
        assert(self@.subrange(0, 0).len() == 0);
        None
    }
}

/// Resolves one parameter: finds the declared type, checks the number and
/// the kind of the values, and builds the typed entry.
pub fn resolve(raw: &RawParam) -> (r: Result<Param, SceneError>)
    ensures
        match resolve_spec(raw@) {
            Ok(p) => r matches Ok(q) && q@ == p,
            Err(e) => r matches Err(x) && x == e,
        },
{
    let ty: ParamType = match param_type(raw.declared.as_slice()) {
        Some(ty) => ty,
        None => { return Err(SceneError::UnknownParamType); },
    };
    let wanted: usize = match ty {
        ParamType::Point => 3,
        ParamType::Rgb => 3,
        _ => 1,
    };
    if raw.values.len() != wanted {
        return Err(SceneError::ArityError);
    }
    let mut i: usize = 0;
    while i < raw.values.len()
        invariant
            i <= raw.values.len(),
            param_type_of(raw@.declared) == Some(ty),
            raw@.values.len() == arity(ty),
            first_misfit(ty, raw@.values, 0) == first_misfit(ty, raw@.values, i as int),
        decreases raw.values.len() - i,
    {
        assert(raw@.values[i as int] == raw.values[i as int]@);
        if !raw.values[i].fits(ty) {
            return Err(SceneError::ParseError { position: raw.values[i].position() });
        }
        i += 1;
    }
    proof {
        lemma_first_misfit(ty, raw@.values, 0);
        assert(fits(ty, raw@.values[0]));
        if wanted == 3 {
            assert(fits(ty, raw@.values[1]));
            assert(fits(ty, raw@.values[2]));
        }
    }
    let value: ParamValue = match ty {
        ParamType::Float => ParamValue::Float(raw.values[0].number()),
        ParamType::Integer => ParamValue::Integer(raw.values[0].integer()),
        ParamType::Str => ParamValue::Str(raw.values[0].string()),
        ParamType::Point => ParamValue::Point(
            raw.values[0].number(),
            raw.values[1].number(),
            raw.values[2].number(),
        ),
        ParamType::Rgb => ParamValue::Rgb(
            raw.values[0].number(),
            raw.values[1].number(),
            raw.values[2].number(),
        ),
        ParamType::Spectrum => ParamValue::Spectrum(raw.values[0].string()),
        ParamType::Texture => ParamValue::Texture(raw.values[0].string()),
    };
    Ok(Param { name: raw.name.clone(), value })
}

/// Resolves a parameter list, entry by entry.
pub fn resolve_all(raws: &Vec<RawParam>) -> (r: Result<ParamSet, SceneError>)
    ensures
        match resolve_all_spec(views(raws@)) {
            Ok(ps) => r matches Ok(q) && q@ == ps,
            Err(e) => r matches Err(x) && x == e,
        },
{
    let ghost rs = views(raws@);
    let mut entries: Vec<Param> = Vec::new();
    let mut i: usize = 0;
    while i < raws.len()
        invariant
            i <= raws.len(),
            rs == views(raws@),
            first_failure(rs, 0) == first_failure(rs, i as int),
            entries.len() == i,
            forall|j: int|
                0 <= j < i ==> resolve_spec(#[trigger] rs[j]) is Ok && entries[j]@ == resolve_spec(
                    rs[j],
                )->Ok_0,
        decreases raws.len() - i,
    {
        assert(rs[i as int] == raws[i as int]@);
        match resolve(&raws[i]) {
            Ok(p) => {
                entries.push(p);
            },
            Err(e) => {
                return Err(e);
            },
        }
        i += 1;
    }
    let r = ParamSet { entries };
    assert(r@ =~= Seq::new(rs.len(), |i: int| resolve_spec(rs[i])->Ok_0));
    Ok(r)
}

} // verus!
