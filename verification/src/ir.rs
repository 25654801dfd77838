//! The shader intermediate representation that blocks are generated from.
//!
//! Arenas are plain vectors, and a handle is the position of an item in its
//! arena. Nothing here forces a handle to be in range: the lookups below
//! answer `None` in their specifications for a handle that is not, and the
//! code generator asks for handles that are.

use vstd::prelude::*;

verus! {

/// Width of a scalar, in bytes.
pub type Bytes = u8;

/// Width of the boolean scalar type.
pub const BOOL_WIDTH: Bytes = 1;

/// A type in [`Module::types`].
#[derive(Clone, Copy, Debug, PartialEq, Eq, Structural)]
pub struct TypeHandle(pub u32);

/// A constant in [`Module::constants`].
#[derive(Clone, Copy, Debug, PartialEq, Eq, Structural)]
pub struct ConstantHandle(pub u32);

/// A global variable of the module.
#[derive(Clone, Copy, Debug, PartialEq, Eq, Structural)]
pub struct GlobalHandle(pub u32);

/// A local variable of the function.
#[derive(Clone, Copy, Debug, PartialEq, Eq, Structural)]
pub struct LocalHandle(pub u32);

/// A function in [`Module::functions`].
#[derive(Clone, Copy, Debug, PartialEq, Eq, Structural)]
pub struct FunctionHandle(pub u32);

/// An expression in [`Function::expressions`].
#[derive(Clone, Copy, Debug, PartialEq, Eq, Structural)]
pub struct ExprHandle(pub u32);

/// Number of components in a vector.
#[derive(Clone, Copy, Debug, PartialEq, Eq, Structural)]
pub enum VectorSize {
    Bi,
    Tri,
    Quad,
}

impl VectorSize {
    /// The number of components.
    pub open spec fn spec_count(self) -> u32 {
        match self {
            VectorSize::Bi => 2,
            VectorSize::Tri => 3,
            VectorSize::Quad => 4,
        }
    }

    /// The number of components.
    #[verifier::when_used_as_spec(spec_count)]
    pub fn count(self) -> (count: u32)
        ensures
            count == self.spec_count(),
    {
        match self {
            VectorSize::Bi => 2,
            VectorSize::Tri => 3,
            VectorSize::Quad => 4,
        }
    }
}

/// Primitive type of a scalar.
#[derive(Clone, Copy, Debug, PartialEq, Eq, Structural)]
pub enum ScalarKind {
    /// Signed integer.
    Sint,
    /// Unsigned integer.
    Uint,
    /// Floating point.
    Float,
    /// Boolean.
    Bool,
}

/// Where a variable lives.
#[derive(Clone, Copy, Debug, PartialEq, Eq, Structural)]
pub enum AddressSpace {
    Function,
    Private,
    WorkGroup,
    Uniform,
    Storage,
    Handle,
    PushConstant,
}

/// Dimensionality of an image.
#[derive(Clone, Copy, Debug, PartialEq, Eq, Structural)]
pub enum ImageDimension {
    D1,
    D2,
    D3,
    Cube,
}

/// What an image is used for.
#[derive(Clone, Copy, Debug, PartialEq, Eq, Structural)]
pub enum ImageClass {
    /// Regular sampled image.
    Sampled { kind: ScalarKind, multi: bool },
    /// Depth comparison image.
    Depth { multi: bool },
    /// Storage image.
    Storage,
}

/// Size of an array.
#[derive(Clone, Copy, Debug, PartialEq, Eq, Structural)]
pub enum ArraySize {
    /// The length is the value of a constant.
    Constant(ConstantHandle),
    /// The length is only known at run time.
    Dynamic,
}

/// The shape of a type.
#[derive(Clone, Copy, Debug, PartialEq, Eq, Structural)]
#[allow(inconsistent_fields)]
pub enum TypeInner {
    Scalar { kind: ScalarKind, width: Bytes },
    Vector { size: VectorSize, kind: ScalarKind, width: Bytes },
    Matrix { columns: VectorSize, rows: VectorSize, width: Bytes },
    Pointer { base: TypeHandle, class: AddressSpace },
    /// Pointer to a scalar or a vector.
    ValuePointer { size: Option<VectorSize>, kind: ScalarKind, width: Bytes, class: AddressSpace },
    Array { base: TypeHandle, size: ArraySize, stride: u32 },
    Struct { span: u32 },
    Image { dim: ImageDimension, arrayed: bool, class: ImageClass },
    Sampler { comparison: bool },
}

impl TypeInner {
    /// The scalar kind that values of this type are made of: that of a scalar
    /// or a vector, and `Float` for every matrix.
    pub open spec fn spec_scalar_kind(self) -> Option<ScalarKind> {
        match self {
            TypeInner::Scalar { kind, .. } => Some(kind),
            TypeInner::Vector { kind, .. } => Some(kind),
            TypeInner::Matrix { .. } => Some(ScalarKind::Float),
            _ => None,
        }
    }

    /// The scalar kind that values of this type are made of, if they are
    /// scalars, vectors or matrices.
    #[verifier::when_used_as_spec(spec_scalar_kind)]
    pub fn scalar_kind(self) -> (kind: Option<ScalarKind>)
        ensures
            kind == self.spec_scalar_kind(),
    {
        match self {
            TypeInner::Scalar { kind, .. } => Some(kind),
            TypeInner::Vector { kind, .. } => Some(kind),
            TypeInner::Matrix { .. } => Some(ScalarKind::Float),
            _ => None,
        }
    }

    /// The address space that a pointer type points into.
    pub open spec fn spec_pointer_class(self) -> Option<AddressSpace> {
        match self {
            TypeInner::Pointer { class, .. } => Some(class),
            TypeInner::ValuePointer { class, .. } => Some(class),
            _ => None,
        }
    }

    /// The address space that a pointer type points into.
    #[verifier::when_used_as_spec(spec_pointer_class)]
    pub fn pointer_class(self) -> (class: Option<AddressSpace>)
        ensures
            class == self.spec_pointer_class(),
    {
        match self {
            TypeInner::Pointer { class, .. } => Some(class),
            TypeInner::ValuePointer { class, .. } => Some(class),
            _ => None,
        }
    }
}

/// The type of an expression: either in the module's arena, or spelled out.
#[derive(Clone, Copy, Debug, PartialEq, Eq, Structural)]
pub enum TypeResolution {
    Handle(TypeHandle),
    Value(TypeInner),
}

/// A type declared by the module.
#[derive(Clone, Copy, Debug, PartialEq, Eq, Structural)]
pub struct Type {
    pub inner: TypeInner,
}

/// The value of a scalar constant.
#[derive(Clone, Copy, Debug, PartialEq, Eq, Structural)]
pub enum ScalarValue {
    Sint(i64),
    Uint(u64),
    /// The IEEE 754 bit pattern, at the width of the constant.
    Float(u64),
    Bool(bool),
}

impl ScalarValue {
    /// The kind of scalar that this value is.
    pub open spec fn spec_scalar_kind(self) -> ScalarKind {
        match self {
            ScalarValue::Sint(_) => ScalarKind::Sint,
            ScalarValue::Uint(_) => ScalarKind::Uint,
            ScalarValue::Float(_) => ScalarKind::Float,
            ScalarValue::Bool(_) => ScalarKind::Bool,
        }
    }

    /// The kind of scalar that this value is.
    #[verifier::when_used_as_spec(spec_scalar_kind)]
    pub fn scalar_kind(self) -> (kind: ScalarKind)
        ensures
            kind == self.spec_scalar_kind(),
    {
        match self {
            ScalarValue::Sint(_) => ScalarKind::Sint,
            ScalarValue::Uint(_) => ScalarKind::Uint,
            ScalarValue::Float(_) => ScalarKind::Float,
            ScalarValue::Bool(_) => ScalarKind::Bool,
        }
    }
}

/// A constant of the module.
#[derive(Clone, Copy, Debug, PartialEq, Eq, Structural)]
pub enum Constant {
    Scalar { width: Bytes, value: ScalarValue },
    Composite { ty: TypeHandle },
}

impl Constant {
    /// The constant as an array length or an index: a non-negative integer
    /// that fits 32 bits.
    pub open spec fn spec_to_array_length(self) -> Option<u32> {
        match self {
            Constant::Scalar { value: ScalarValue::Uint(v), .. } if v <= u32::MAX => Some(v as u32),
            Constant::Scalar { value: ScalarValue::Sint(v), .. } if 0 <= v <= u32::MAX => Some(
                v as u32,
            ),
            _ => None,
        }
    }

    /// The constant as an array length or an index, if it can be one.
    #[verifier::when_used_as_spec(spec_to_array_length)]
    pub fn to_array_length(self) -> (length: Option<u32>)
        ensures
            length == self.spec_to_array_length(),
    {
        match self {
            Constant::Scalar { value: ScalarValue::Uint(v), .. } => {
                if v <= u32::MAX as u64 {
                    Some(v as u32)
                } else {
                    None
                }
            },
            Constant::Scalar { value: ScalarValue::Sint(v), .. } => {
                if 0 <= v && v <= u32::MAX as i64 {
                    Some(v as u32)
                } else {
                    None
                }
            },
            _ => None,
        }
    }
}

/// Built-in inputs and outputs of shader stages.
#[derive(Clone, Copy, Debug, PartialEq, Eq, Structural)]
pub enum BuiltIn {
    Position,
    BaseInstance,
    BaseVertex,
    ClipDistance,
    InstanceIndex,
    PointSize,
    VertexIndex,
    FragDepth,
    FrontFacing,
    SampleIndex,
    SampleMask,
    GlobalInvocationId,
    LocalInvocationId,
    LocalInvocationIndex,
    WorkGroupId,
    WorkGroupSize,
}

/// How a value is passed between shader stages.
#[derive(Clone, Copy, Debug, PartialEq, Eq, Structural)]
pub enum Binding {
    BuiltIn(BuiltIn),
    Location(u32),
}

/// A parameter of a function.
#[derive(Clone, Copy, Debug, PartialEq, Eq, Structural)]
pub struct FunctionArgument {
    pub ty: TypeHandle,
}

/// The result of a function.
#[derive(Clone, Copy, Debug, PartialEq, Eq, Structural)]
pub struct FunctionResult {
    pub ty: TypeHandle,
    /// Present if the whole result is bound; a structure without a binding
    /// has its members bound one by one.
    pub binding: Option<Binding>,
}

/// Component selection of a swizzle.
#[derive(Clone, Copy, Debug, PartialEq, Eq, Structural)]
pub enum SwizzleComponent {
    X,
    Y,
    Z,
    W,
}

impl SwizzleComponent {
    /// The position of the component in a vector.
    pub open spec fn spec_index(self) -> u32 {
        match self {
            SwizzleComponent::X => 0,
            SwizzleComponent::Y => 1,
            SwizzleComponent::Z => 2,
            SwizzleComponent::W => 3,
        }
    }

    /// The position of the component in a vector.
    pub fn index(self) -> (index: u32)
        ensures
            index == self.spec_index(),
    {
        match self {
            SwizzleComponent::X => 0,
            SwizzleComponent::Y => 1,
            SwizzleComponent::Z => 2,
            SwizzleComponent::W => 3,
        }
    }
}

#[derive(Clone, Copy, Debug, PartialEq, Eq, Structural)]
pub enum UnaryOperator {
    Negate,
    Not,
}

#[derive(Clone, Copy, Debug, PartialEq, Eq, Structural)]
pub enum BinaryOperator {
    Add,
    Subtract,
    Multiply,
    Divide,
    Modulo,
    Equal,
    NotEqual,
    Less,
    LessEqual,
    Greater,
    GreaterEqual,
    And,
    ExclusiveOr,
    InclusiveOr,
    LogicalAnd,
    LogicalOr,
    ShiftLeft,
    /// Right shift carries the sign of signed integers only.
    ShiftRight,
}

/// Axis on which to compute a derivative.
#[derive(Clone, Copy, Debug, PartialEq, Eq, Structural)]
pub enum DerivativeAxis {
    X,
    Y,
    Width,
}

/// Built-in shader function for testing relation between values.
#[derive(Clone, Copy, Debug, PartialEq, Eq, Structural)]
pub enum RelationalFunction {
    All,
    Any,
    IsNan,
    IsInf,
    IsFinite,
    IsNormal,
}

/// Built-in shader function for math.
#[derive(Clone, Copy, Debug, PartialEq, Eq, Structural)]
pub enum MathFunction {
    // comparison
    Abs,
    Min,
    Max,
    Clamp,
    // trigonometry
    Cos,
    Cosh,
    Sin,
    Sinh,
    Tan,
    Tanh,
    Acos,
    Asin,
    Atan,
    Atan2,
    // decomposition
    Ceil,
    Floor,
    Round,
    Fract,
    Trunc,
    Modf,
    Frexp,
    Ldexp,
    // exponent
    Exp,
    Exp2,
    Log,
    Log2,
    Pow,
    // geometry
    Dot,
    Outer,
    Cross,
    Distance,
    Length,
    Normalize,
    FaceForward,
    Reflect,
    Refract,
    // computational
    Sign,
    Fma,
    Mix,
    Step,
    SmoothStep,
    Sqrt,
    InverseSqrt,
    Inverse,
    Transpose,
    Determinant,
    // bits
    CountOneBits,
    ReverseBits,
}

impl MathFunction {
    /// The number of arguments that the function takes.
    pub open spec fn spec_argument_count(self) -> usize {
        match self {
            MathFunction::Clamp
            | MathFunction::FaceForward
            | MathFunction::Refract
            | MathFunction::Fma
            | MathFunction::Mix
            | MathFunction::SmoothStep => 3,
            MathFunction::Min
            | MathFunction::Max
            | MathFunction::Atan2
            | MathFunction::Modf
            | MathFunction::Frexp
            | MathFunction::Ldexp
            | MathFunction::Pow
            | MathFunction::Dot
            | MathFunction::Outer
            | MathFunction::Cross
            | MathFunction::Distance
            | MathFunction::Reflect
            | MathFunction::Step => 2,
            _ => 1,
        }
    }

    /// The number of arguments that the function takes.
    #[verifier::when_used_as_spec(spec_argument_count)]
    pub fn argument_count(self) -> (count: usize)
        ensures
            count == self.spec_argument_count(),
    {
        match self {
            MathFunction::Clamp
            | MathFunction::FaceForward
            | MathFunction::Refract
            | MathFunction::Fma
            | MathFunction::Mix
            | MathFunction::SmoothStep => 3,
            MathFunction::Min
            | MathFunction::Max
            | MathFunction::Atan2
            | MathFunction::Modf
            | MathFunction::Frexp
            | MathFunction::Ldexp
            | MathFunction::Pow
            | MathFunction::Dot
            | MathFunction::Outer
            | MathFunction::Cross
            | MathFunction::Distance
            | MathFunction::Reflect
            | MathFunction::Step => 2,
            _ => 1,
        }
    }
}

/// Sampling modifier to control the level of detail.
#[derive(Clone, Copy, Debug, PartialEq, Eq, Structural)]
pub enum SampleLevel {
    Auto,
    Zero,
    Exact(ExprHandle),
    Bias(ExprHandle),
    Gradient { x: ExprHandle, y: ExprHandle },
}

/// Type of an image query.
#[derive(Clone, Copy, Debug, PartialEq, Eq, Structural)]
pub enum ImageQuery {
    /// Get the size at the specified level.
    Size { level: Option<ExprHandle> },
    /// Get the number of mipmap levels.
    NumLevels,
    /// Get the number of array layers.
    NumLayers,
    /// Get the number of samples.
    NumSamples,
}

/// An expression of a function.
#[derive(Debug)]
#[allow(inconsistent_fields)]
pub enum Expression {
    /// Array or vector access with a computed index.
    Access { base: ExprHandle, index: ExprHandle },
    /// Array, vector, matrix or structure access with a known index.
    AccessIndex { base: ExprHandle, index: u32 },
    Constant(ConstantHandle),
    /// A scalar repeated into a vector.
    Splat { size: VectorSize, value: ExprHandle },
    /// A selection of a vector's components.
    Swizzle { size: VectorSize, vector: ExprHandle, pattern: [SwizzleComponent; 4] },
    /// A composite built from its parts.
    Compose { ty: TypeHandle, components: Vec<ExprHandle> },
    FunctionArgument(u32),
    GlobalVariable(GlobalHandle),
    LocalVariable(LocalHandle),
    Load { pointer: ExprHandle },
    ImageSample {
        image: ExprHandle,
        sampler: ExprHandle,
        coordinate: ExprHandle,
        array_index: Option<ExprHandle>,
        offset: Option<ConstantHandle>,
        level: SampleLevel,
        depth_ref: Option<ExprHandle>,
    },
    ImageLoad {
        image: ExprHandle,
        coordinate: ExprHandle,
        array_index: Option<ExprHandle>,
        /// The level of detail, or the sample of a multisampled image.
        index: Option<ExprHandle>,
    },
    ImageQuery { image: ExprHandle, query: ImageQuery },
    Unary { op: UnaryOperator, expr: ExprHandle },
    Binary { op: BinaryOperator, left: ExprHandle, right: ExprHandle },
    /// `accept` where `condition` holds, `reject` where it does not.
    Select { condition: ExprHandle, accept: ExprHandle, reject: ExprHandle },
    Derivative { axis: DerivativeAxis, expr: ExprHandle },
    Relational { fun: RelationalFunction, argument: ExprHandle },
    Math {
        fun: MathFunction,
        arg: ExprHandle,
        arg1: Option<ExprHandle>,
        arg2: Option<ExprHandle>,
    },
    /// A cast. With a width in `convert` the value is converted, without one
    /// its bits are reinterpreted.
    As { expr: ExprHandle, kind: ScalarKind, convert: Option<Bytes> },
    /// The result of a call.
    Call(FunctionHandle),
    /// The length of a run-time sized array.
    ArrayLength(ExprHandle),
}

/// Which memory a barrier orders.
#[derive(Clone, Copy, Debug, PartialEq, Eq, Structural)]
pub struct Barrier {
    /// Storage buffers.
    pub storage: bool,
    /// Work group memory.
    pub work_group: bool,
}

/// A case of a switch statement.
#[derive(Debug)]
pub struct SwitchCase {
    pub value: i32,
    pub body: Vec<Statement>,
    /// Whether control passes on to the case that follows.
    pub fall_through: bool,
}

/// A statement of a function.
#[derive(Debug)]
#[allow(inconsistent_fields)]
pub enum Statement {
    /// Evaluate the expressions from `start` up to, not counting, `end`.
    Emit { start: u32, end: u32 },
    /// A block of statements.
    Block(Vec<Statement>),
    If { condition: ExprHandle, accept: Vec<Statement>, reject: Vec<Statement> },
    Switch { selector: ExprHandle, cases: Vec<SwitchCase>, default: Vec<Statement> },
    /// `body`, then `continuing`, over and over.
    Loop { body: Vec<Statement>, continuing: Vec<Statement> },
    Break,
    Continue,
    Return { value: Option<ExprHandle> },
    Kill,
    Barrier(Barrier),
    Store { pointer: ExprHandle, value: ExprHandle },
    ImageStore {
        image: ExprHandle,
        coordinate: ExprHandle,
        array_index: Option<ExprHandle>,
        value: ExprHandle,
    },
    Call { function: FunctionHandle, arguments: Vec<ExprHandle>, result: Option<ExprHandle> },
}

/// A function of the module.
#[derive(Debug)]
pub struct Function {
    pub arguments: Vec<FunctionArgument>,
    pub result: Option<FunctionResult>,
    pub expressions: Vec<Expression>,
}

/// A shader module.
#[derive(Debug)]
pub struct Module {
    pub types: Vec<Type>,
    pub constants: Vec<Constant>,
    pub functions: Vec<Function>,
}

/// What validation found out about a function.
#[derive(Debug)]
pub struct FunctionInfo {
    /// The type of each expression, in the order of [`Function::expressions`].
    pub types: Vec<TypeResolution>,
}

impl Module {
    /// The shape of a declared type.
    pub open spec fn inner(self, ty: TypeHandle) -> Option<TypeInner> {
        if ty.0 < self.types@.len() {
            Some(self.types@[ty.0 as int].inner)
        } else {
            None
        }
    }

    /// The shape of a type that is declared or spelled out.
    pub open spec fn resolved(self, ty: TypeResolution) -> Option<TypeInner> {
        match ty {
            TypeResolution::Handle(handle) => self.inner(handle),
            TypeResolution::Value(inner) => Some(inner),
        }
    }

    /// The type of what a function returns, if it returns anything.
    pub open spec fn result_type(self, function: FunctionHandle) -> Option<TypeHandle> {
        if function.0 < self.functions@.len() {
            match self.functions@[function.0 as int].result {
                Some(result) => Some(result.ty),
                None => None,
            }
        } else {
            None
        }
    }

    /// The type of what a function returns.
    pub fn function_result_type(&self, function: FunctionHandle) -> (ty: TypeHandle)
        requires
            self.result_type(function) is Some,
        ensures
            self.result_type(function) == Some(ty),
    {
        self.functions[function.0 as usize].result.as_ref().unwrap().ty
    }

    /// The shape of a type that is declared or spelled out.
    pub fn resolve(&self, ty: TypeResolution) -> (inner: TypeInner)
        requires
            self.resolved(ty) is Some,
        ensures
            self.resolved(ty) == Some(inner),
    {
        match ty {
            TypeResolution::Handle(handle) => self.types[handle.0 as usize].inner,
            TypeResolution::Value(inner) => inner,
        }
    }

    /// A constant of the module.
    pub open spec fn constant(self, constant: ConstantHandle) -> Option<Constant> {
        if constant.0 < self.constants@.len() {
            Some(self.constants@[constant.0 as int])
        } else {
            None
        }
    }
}

impl Function {
    /// An expression of the function.
    pub open spec fn expression(self, expr: ExprHandle) -> Option<Expression> {
        if expr.0 < self.expressions@.len() {
            Some(self.expressions@[expr.0 as int])
        } else {
            None
        }
    }
}

impl FunctionInfo {
    /// The type of an expression.
    pub open spec fn ty(self, expr: ExprHandle) -> Option<TypeResolution> {
        if expr.0 < self.types@.len() {
            Some(self.types@[expr.0 as int])
        } else {
            None
        }
    }
}

} // verus!
