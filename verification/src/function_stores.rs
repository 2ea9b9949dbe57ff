//! The registries of functions that the lexer can recognize in a call.

use vstd::prelude::*;

verus! {

/// Bounds on how many arguments a function call may carry, both ends
/// inclusive.
#[derive(Debug, Clone, Copy, PartialEq, Eq, Structural)]
pub struct ArgumentBounds {
    /// The least number of arguments the function accepts.
    pub min: usize,
    /// The greatest number of arguments the function accepts.
    pub max: usize,
}


/// The one-argument math functions, each a plain wrapper over one
/// `libm` routine; every one takes exactly one argument.
#[derive(Debug, Clone, Copy, PartialEq, Eq, Structural)]
pub enum UnaryKind {
    /// The acos function, `acos(x)`.
    Acos,
    /// The acosh function, `acosh(x)`.
    Acosh,
    /// The asin function, `asin(x)`.
    Asin,
    /// The asinh function, `asinh(x)`.
    Asinh,
    /// The atan function, `atan(x)`.
    Atan,
    /// The atanh function, `atanh(x)`.
    Atanh,
    /// The cbrt function, `cbrt(x)`.
    Cbrt,
    /// The ceil function, `ceil(x)`.
    Ceil,
    /// The cos function, `cos(x)`.
    Cos,
    /// The cosh function, `cosh(x)`.
    Cosh,
    /// The exp function, `exp(x)`.
    Exp,
    /// The floor function, `floor(x)`.
    Floor,
    /// The sinh function, `sinh(x)`.
    Sinh,
    /// The sqrt function, `sqrt(x)`.
    Sqrt,
    /// The tan function, `tan(x)`.
    Tan,
    /// The tanh function, `tanh(x)`.
    Tanh,
    /// The log function, `log(x)`.
    Log,
    /// The erf function, `erf(x)`.
    Erf,
}

/// What a one-argument function computes, on binary64 bit patterns.
pub open spec fn apply_unary(k: UnaryKind, a: u64) -> u64 {
    match k {
        UnaryKind::Acos => crate::numeric::acos_bits(a),
        UnaryKind::Acosh => crate::numeric::acosh_bits(a),
        UnaryKind::Asin => crate::numeric::asin_bits(a),
        UnaryKind::Asinh => crate::numeric::asinh_bits(a),
        UnaryKind::Atan => crate::numeric::atan_bits(a),
        UnaryKind::Atanh => crate::numeric::atanh_bits(a),
        UnaryKind::Cbrt => crate::numeric::cbrt_bits(a),
        UnaryKind::Ceil => crate::numeric::ceil_bits(a),
        UnaryKind::Cos => crate::numeric::cos_bits(a),
        UnaryKind::Cosh => crate::numeric::cosh_bits(a),
        UnaryKind::Exp => crate::numeric::exp_bits(a),
        UnaryKind::Floor => crate::numeric::floor_bits(a),
        UnaryKind::Sinh => crate::numeric::sinh_bits(a),
        UnaryKind::Sqrt => crate::numeric::sqrt_bits(a),
        UnaryKind::Tan => crate::numeric::tan_bits(a),
        UnaryKind::Tanh => crate::numeric::tanh_bits(a),
        UnaryKind::Log => crate::numeric::log_bits(a),
        UnaryKind::Erf => crate::numeric::erf_bits(a),
    }
}

impl UnaryKind {
    /// The name a call of the function is written with; never empty.
    pub fn name(&self) -> (r: &'static str)
        ensures
            r@ == self.spec_name(),
            self.spec_name().len() >= 1,
    {
        proof {
            reveal_strlit("acos");
            reveal_strlit("acosh");
            reveal_strlit("asin");
            reveal_strlit("asinh");
            reveal_strlit("atan");
            reveal_strlit("atanh");
            reveal_strlit("cbrt");
            reveal_strlit("ceil");
            reveal_strlit("cos");
            reveal_strlit("cosh");
            reveal_strlit("exp");
            reveal_strlit("floor");
            reveal_strlit("sinh");
            reveal_strlit("sqrt");
            reveal_strlit("tan");
            reveal_strlit("tanh");
            reveal_strlit("log");
            reveal_strlit("erf");
        }
        match self {
            Self::Acos => "acos",
            Self::Acosh => "acosh",
            Self::Asin => "asin",
            Self::Asinh => "asinh",
            Self::Atan => "atan",
            Self::Atanh => "atanh",
            Self::Cbrt => "cbrt",
            Self::Ceil => "ceil",
            Self::Cos => "cos",
            Self::Cosh => "cosh",
            Self::Exp => "exp",
            Self::Floor => "floor",
            Self::Sinh => "sinh",
            Self::Sqrt => "sqrt",
            Self::Tan => "tan",
            Self::Tanh => "tanh",
            Self::Log => "log",
            Self::Erf => "erf",
        }
    }

    /// The spelling of each function's name.
    pub open spec fn spec_name(self) -> Seq<char> {
        match self {
            Self::Acos => "acos"@,
            Self::Acosh => "acosh"@,
            Self::Asin => "asin"@,
            Self::Asinh => "asinh"@,
            Self::Atan => "atan"@,
            Self::Atanh => "atanh"@,
            Self::Cbrt => "cbrt"@,
            Self::Ceil => "ceil"@,
            Self::Cos => "cos"@,
            Self::Cosh => "cosh"@,
            Self::Exp => "exp"@,
            Self::Floor => "floor"@,
            Self::Sinh => "sinh"@,
            Self::Sqrt => "sqrt"@,
            Self::Tan => "tan"@,
            Self::Tanh => "tanh"@,
            Self::Log => "log"@,
            Self::Erf => "erf"@,
        }
    }

    /// Applies the function to a binary64 bit pattern.
    pub fn eval(&self, a: u64) -> (r: u64)
        ensures
            r == apply_unary(*self, a),
    {
        match self {
            Self::Acos => crate::numeric::compute_acos(a),
            Self::Acosh => crate::numeric::compute_acosh(a),
            Self::Asin => crate::numeric::compute_asin(a),
            Self::Asinh => crate::numeric::compute_asinh(a),
            Self::Atan => crate::numeric::compute_atan(a),
            Self::Atanh => crate::numeric::compute_atanh(a),
            Self::Cbrt => crate::numeric::compute_cbrt(a),
            Self::Ceil => crate::numeric::compute_ceil(a),
            Self::Cos => crate::numeric::compute_cos(a),
            Self::Cosh => crate::numeric::compute_cosh(a),
            Self::Exp => crate::numeric::compute_exp(a),
            Self::Floor => crate::numeric::compute_floor(a),
            Self::Sinh => crate::numeric::compute_sinh(a),
            Self::Sqrt => crate::numeric::compute_sqrt(a),
            Self::Tan => crate::numeric::compute_tan(a),
            Self::Tanh => crate::numeric::compute_tanh(a),
            Self::Log => crate::numeric::compute_log(a),
            Self::Erf => crate::numeric::compute_erf(a),
        }
    }
}

/// The functions a store can register, each with its name, its
/// argument-count bounds and its parser.
#[derive(Debug, Clone, Copy, PartialEq, Eq, Structural)]
pub enum FunctionKind {
    /// The sine function, `sin(x)`: exactly one argument.
    Sin,
    /// The minimum function, `min(a, b, ...)`: at least two arguments.
    Min,
    /// One of the other one-argument math functions.
    Unary(UnaryKind),
}

impl FunctionKind {
    /// The name a call of the function is written with; never empty.
    pub fn name(&self) -> (r: &'static str)
        ensures
            r@ == self.spec_name(),
            self.spec_name().len() >= 1,
    {
        proof {
            reveal_strlit("sin");
            reveal_strlit("min");
        }
        match self {
            Self::Sin => "sin",
            Self::Min => "min",
            Self::Unary(k) => k.name(),
        }
    }

    /// The spelling of each function's name.
    pub open spec fn spec_name(self) -> Seq<char> {
        match self {
            Self::Sin => "sin"@,
            Self::Min => "min"@,
            Self::Unary(k) => k.spec_name(),
        }
    }

    /// The argument-count bounds of the function.
    pub fn bounds(&self) -> (r: ArgumentBounds)
        ensures
            r.min == self.spec_min(),
            r.max == self.spec_max(),
    {
        match self {
            Self::Sin => ArgumentBounds { min: 1, max: 1 },
            Self::Min => ArgumentBounds { min: 2, max: usize::MAX },
            Self::Unary(_) => ArgumentBounds { min: 1, max: 1 },
        }
    }

    /// The least argument count of each function.
    pub open spec fn spec_min(self) -> usize {
        match self {
            Self::Sin => 1,
            Self::Min => 2,
            Self::Unary(_) => 1,
        }
    }

    /// The greatest argument count of each function.
    pub open spec fn spec_max(self) -> usize {
        match self {
            Self::Sin => 1,
            Self::Min => usize::MAX,
            Self::Unary(_) => 1,
        }
    }
}

/// The first registered function carrying a name, if any.
pub open spec fn spec_function_parser(ks: Seq<FunctionKind>, name: Seq<char>) -> Option<
    FunctionKind,
>
    decreases ks,
{
    if ks.len() == 0 {
        None
    } else if ks.first().spec_name() == name {
        Some(ks.first())
    } else {
        spec_function_parser(ks.drop_first(), name)
    }
}

/// Read access to a function store: the store views into the list of
/// registered functions, in its iteration order.
pub trait GetFunction {
    /// The functions the store holds, in iteration order.
    spec fn functions(&self) -> Seq<FunctionKind>;

    /// How many functions the store holds.
    fn count(&self) -> (n: usize)
        ensures
            n == self.functions().len(),
    ;

    /// The function at a position of the iteration order.
    fn kind_at(&self, i: usize) -> (r: FunctionKind)
        requires
            i < self.functions().len(),
        ensures
            r == self.functions()[i as int],
    ;

    /// Looks the named function up and returns it with its
    /// argument-count bounds.
    fn function_parser(&self, formula_name: &str) -> (r: Option<(FunctionKind, ArgumentBounds)>)
        ensures
            match r {
                Some((k, b)) => spec_function_parser(self.functions(), formula_name@) == Some(k)
                    && b.min == k.spec_min() && b.max == k.spec_max(),
                None => spec_function_parser(self.functions(), formula_name@) is None,
            },
    ;
}

/// Registration access to a function store.
pub trait RegisterParser: GetFunction {
    /// Registers a function at the end of the iteration order.
    fn register(&mut self, kind: FunctionKind)
        ensures
            final(self).functions() == old(self).functions().push(kind),
    ;
}

/// Whether two character sequences are equal; the executable test
/// scans left to right.
fn str_eq(a: &str, b: &str) -> (r: bool)
    ensures
        r == (a@ == b@),
{
    let na = a.unicode_len();
    let nb = b.unicode_len();
    if na != nb {
        proof {
            assert(a@ != b@);
        }
        return false;
    }
    for i in 0..na
        invariant
            na == a@.len(),
            na == b@.len(),
            forall|j: int| 0 <= j < i ==> a@[j] == b@[j],
    {
        if a.get_char(i) != b.get_char(i) {
            return false;
        }
    }
    proof {
        assert(a@ =~= b@);
    }
    true
}

/// A helper over the common backing of the registering stores.
fn find_kind(ks: &Vec<FunctionKind>, formula_name: &str) -> (r: Option<(
    FunctionKind,
    ArgumentBounds,
)>)
    ensures
        match r {
            Some((k, b)) => spec_function_parser(ks@, formula_name@) == Some(k) && b.min
                == k.spec_min() && b.max == k.spec_max(),
            None => spec_function_parser(ks@, formula_name@) is None,
        },
{
    let n = ks.len();
    proof {
        assert(ks@.skip(0) =~= ks@);
    }
    for i in 0..n
        invariant
            n == ks@.len(),
            forall|j: int| 0 <= j < i ==> (#[trigger] ks@[j]).spec_name() != formula_name@,
            spec_function_parser(ks@, formula_name@) == spec_function_parser(
                ks@.skip(i as int),
                formula_name@,
            ),
    {
        proof {
            assert(ks@.skip(i as int).first() == ks@[i as int]);
            assert(ks@.skip(i as int).drop_first() =~= ks@.skip(i as int + 1));
        }
        let k = ks[i];
        if str_eq(k.name(), formula_name) {
            return Some((k, k.bounds()));
        }
    }
    proof {
        assert(ks@.skip(n as int).len() == 0);
    }
    None
}

/// The store that holds no functions.
#[derive(Debug, Default, Clone, Copy)]
pub struct EmptyFunctionStore;

impl GetFunction for EmptyFunctionStore {
    open spec fn functions(&self) -> Seq<FunctionKind> {
        Seq::empty()
    }

    fn count(&self) -> (n: usize) {
        0
    }

    fn kind_at(&self, i: usize) -> (r: FunctionKind) {
        proof {
            assert(false);
        }
        FunctionKind::Sin
    }

    fn function_parser(&self, formula_name: &str) -> (r: Option<(FunctionKind, ArgumentBounds)>) {
        None
    }
}

impl EmptyFunctionStore {
    /// Accepts and drops a registration: the empty store keeps nothing.
    pub fn register(&mut self, kind: FunctionKind)
        ensures
            final(self).functions() == Seq::<FunctionKind>::empty(),
    {
    }
}

/// A function store backed by a vector, scanned linearly.
#[derive(Debug, Default, Clone)]
pub struct VectorFunctionStore(pub Vec<FunctionKind>);

impl VectorFunctionStore {
    /// Creates an empty store.
    pub fn new() -> (r: Self)
        ensures
            r.functions() == Seq::<FunctionKind>::empty(),
    {
        Self(Vec::new())
    }
}

impl GetFunction for VectorFunctionStore {
    open spec fn functions(&self) -> Seq<FunctionKind> {
        self.0@
    }

    fn count(&self) -> (n: usize) {
        self.0.len()
    }

    fn kind_at(&self, i: usize) -> (r: FunctionKind) {
        self.0[i]
    }

    fn function_parser(&self, formula_name: &str) -> (r: Option<(FunctionKind, ArgumentBounds)>) {
        find_kind(&self.0, formula_name)
    }
}

impl RegisterParser for VectorFunctionStore {
    fn register(&mut self, kind: FunctionKind) {
        self.0.push(kind);
    }
}

/// A function store backed by a vector, like [`VectorFunctionStore`];
/// kept as a second, interchangeable backing.
#[derive(Debug, Default, Clone)]
pub struct VecFunctionStore(pub Vec<FunctionKind>);

impl VecFunctionStore {
    /// Creates an empty store.
    pub fn new() -> (r: Self)
        ensures
            r.functions() == Seq::<FunctionKind>::empty(),
    {
        Self(Vec::new())
    }
}

impl GetFunction for VecFunctionStore {
    open spec fn functions(&self) -> Seq<FunctionKind> {
        self.0@
    }

    fn count(&self) -> (n: usize) {
        self.0.len()
    }

    fn kind_at(&self, i: usize) -> (r: FunctionKind) {
        self.0[i]
    }

    fn function_parser(&self, formula_name: &str) -> (r: Option<(FunctionKind, ArgumentBounds)>) {
        find_kind(&self.0, formula_name)
    }
}

impl RegisterParser for VecFunctionStore {
    fn register(&mut self, kind: FunctionKind) {
        self.0.push(kind);
    }
}

/// A function store keyed like a map; registration order is kept.
#[derive(Debug, Default, Clone)]
pub struct HashMapFunctionStore(pub Vec<FunctionKind>);

impl HashMapFunctionStore {
    /// Creates an empty store.
    pub fn new() -> (r: Self)
        ensures
            r.functions() == Seq::<FunctionKind>::empty(),
    {
        Self(Vec::new())
    }
}

impl GetFunction for HashMapFunctionStore {
    open spec fn functions(&self) -> Seq<FunctionKind> {
        self.0@
    }

    fn count(&self) -> (n: usize) {
        self.0.len()
    }

    fn kind_at(&self, i: usize) -> (r: FunctionKind) {
        self.0[i]
    }

    fn function_parser(&self, formula_name: &str) -> (r: Option<(FunctionKind, ArgumentBounds)>) {
        find_kind(&self.0, formula_name)
    }
}

impl RegisterParser for HashMapFunctionStore {
    fn register(&mut self, kind: FunctionKind) {
        self.0.push(kind);
    }
}

} // verus!
