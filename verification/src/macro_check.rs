//! The checks made by the `task`, `main` and `interrupt` attribute macros on
//! the function they decorate, over a plain description of its signature.
//! Spans are carried as numbers that the caller maps back to source spans.
use vstd::prelude::*;

verus! {

/// A type, as far as the macros read it.
pub enum TypeShape {
    /// A path type; `last` is its last segment, if it has segments.
    Path { span: usize, last: Option<SegmentShape> },
    /// A reference `&T` or `&'a T`.
    Reference { span: usize, elem: Box<TypeShape> },
    /// Any other type.
    Other { span: usize },
}

/// One path segment: `ident` and its arguments.
pub struct SegmentShape {
    pub span: usize,
    pub ident: String,
    pub ident_span: usize,
    pub args: ArgsShape,
}

/// The arguments of a path segment: none, `(...)` or `<...>`.
pub enum ArgsShape {
    Bare,
    Parenthesized,
    /// `<...>`, with its first argument.
    AngleBracketed { span: usize, first: Option<GenericArgShape> },
}

/// A generic argument.
pub enum GenericArgShape {
    Type(Box<TypeShape>),
    Const(ExprShape),
    Other,
}

/// A const-generic argument expression.
pub enum ExprShape {
    /// An integer literal, with its value when it parses as a `usize`.
    IntLit { span: usize, value: Option<usize> },
    Other { span: usize },
}

/// The declared return type of a function.
#[derive(Debug, Clone, Copy, PartialEq, Eq, Structural)]
pub enum ReturnShape {
    /// No `->` at all.
    Default,
    /// `-> ()`.
    Unit,
    /// A non-empty tuple or any other type.
    Other,
}

/// A function parameter.
pub enum ArgShape {
    /// `self`, `&self`, ...
    Receiver { span: usize },
    /// `pat: ty`.
    Typed { span: usize, ty: TypeShape },
}

/// The signature of the decorated function.
pub struct FnShape {
    pub is_async: bool,
    pub has_generics: bool,
    pub output: ReturnShape,
    pub inputs: Vec<ArgShape>,
}

/// Why the signature was rejected.
#[derive(Debug, Clone, Copy, PartialEq, Eq, Structural)]
pub enum MacroErrorKind {
    /// `#[task]` can only be applied to async functions.
    TaskNotAsync,
    /// `#[task]` does not support generic parameters.
    TaskGeneric,
    /// `#[task]` functions must return `()`.
    TaskReturn,
    /// `#[task]` functions cannot have `self` parameters.
    TaskSelf,
    /// `#[main]` cannot be applied to async functions.
    MainAsync,
    /// `#[main]` does not support generic parameters.
    MainGeneric,
    /// `#[main]` expects exactly one parameter.
    MainArity,
    /// `#[main]` parameter must be `Pin<&Spawner<N>>`.
    MainParam,
    /// `#[interrupt]` cannot be applied to async functions.
    InterruptAsync,
    /// expected `Pin<&Spawner<N>>`.
    ExpectedPin,
    /// `Pin` missing generic arguments.
    PinMissingArgs,
    /// `Pin` generic argument must be `&Spawner<N>`.
    PinArgNotRef,
    /// expected `Spawner<N>`.
    ExpectedSpawner,
    /// `Spawner` missing const generic `N`.
    SpawnerMissingN,
    /// expected `Spawner<N>` with const generic.
    ExpectedConstN,
    /// `N` must be an integer literal.
    NotIntLiteral,
    /// The literal does not fit a `usize`.
    BadInt,
}

/// Where the error is reported: for spans, the node's span number; for the
/// function keyword or generics, no span number.
#[derive(Debug, Clone, Copy, PartialEq, Eq, Structural)]
pub struct MacroError {
    pub kind: MacroErrorKind,
    pub span: Option<usize>,
}

/// Which symbol an interrupt handler is exported as.
#[derive(Debug, Clone, Copy, PartialEq, Eq, Structural)]
pub enum InterruptSymbol {
    /// The function's own name.
    Same,
    /// `__Inner_MachineSoft`: the software interrupt is reserved for the scheduler.
    InnerMachineSoft,
}

pub open spec fn err(kind: MacroErrorKind, span: Option<usize>) -> MacroError {
    MacroError { kind, span }
}

pub open spec fn type_span(ty: TypeShape) -> usize {
    match ty {
        TypeShape::Path { span, .. } => span,
        TypeShape::Reference { span, .. } => span,
        TypeShape::Other { span } => span,
    }
}

pub open spec fn expr_span(e: ExprShape) -> usize {
    match e {
        ExprShape::IntLit { span, .. } => span,
        ExprShape::Other { span } => span,
    }
}

/// The `N` of `Spawner<N>` in `Spawner<N>` (the type behind the reference).
pub open spec fn spawner_n_of(ty: TypeShape) -> Result<usize, MacroError> {
    match ty {
        TypeShape::Path { span, last } => match last {
            None => Err(err(MacroErrorKind::ExpectedSpawner, Some(span))),
            Some(seg) => if seg.ident@ != "Spawner"@ {
                Err(err(MacroErrorKind::ExpectedSpawner, Some(seg.ident_span)))
            } else {
                match seg.args {
                    ArgsShape::AngleBracketed { span: args_span, first } => match first {
                        Some(GenericArgShape::Const(e)) => match e {
                            ExprShape::IntLit { span: lit_span, value } => match value {
                                Some(n) => Ok(n),
                                None => Err(err(MacroErrorKind::BadInt, Some(lit_span))),
                            },
                            ExprShape::Other { span: e_span } => Err(err(MacroErrorKind::NotIntLiteral, Some(e_span))),
                        },
                        _ => Err(err(MacroErrorKind::ExpectedConstN, Some(args_span))),
                    },
                    _ => Err(err(MacroErrorKind::SpawnerMissingN, Some(seg.span))),
                }
            }
        },
        _ => Err(err(MacroErrorKind::ExpectedSpawner, Some(type_span(ty)))),
    }
}

/// The `N` of a parameter type `Pin<&Spawner<N>>` (any lifetime), or the
/// first mismatch found reading it from the outside in.
pub open spec fn spawner_n(ty: TypeShape) -> Result<usize, MacroError> {
    match ty {
        TypeShape::Path { span, last } => match last {
            None => Err(err(MacroErrorKind::ExpectedPin, Some(span))),
            Some(seg) => if seg.ident@ != "Pin"@ {
                Err(err(MacroErrorKind::ExpectedPin, Some(seg.ident_span)))
            } else {
                match seg.args {
                    ArgsShape::AngleBracketed { span: args_span, first } => match first {
                        Some(GenericArgShape::Type(inner)) => match *inner {
                            TypeShape::Reference { elem, .. } => spawner_n_of(*elem),
                            _ => Err(err(MacroErrorKind::PinArgNotRef, Some(type_span(*inner)))),
                        },
                        _ => Err(err(MacroErrorKind::PinArgNotRef, Some(args_span))),
                    },
                    _ => Err(err(MacroErrorKind::PinMissingArgs, Some(seg.span))),
                }
            }
        },
        _ => Err(err(MacroErrorKind::ExpectedPin, Some(type_span(ty)))),
    }
}

/// `ty` is written `Spawner<n>`, with `n` an integer literal whose value is `n`.
pub open spec fn is_spawner_type(ty: TypeShape, n: usize) -> bool {
    &&& ty is Path
    &&& ty->Path_last matches Some(seg) && {
        &&& seg.ident@ == "Spawner"@
        &&& seg.args is AngleBracketed
        &&& seg.args->AngleBracketed_first matches Some(GenericArgShape::Const(ExprShape::IntLit { value: Some(m), .. })) && m == n
    }
}

/// `ty` is written `Pin<&Spawner<n>>` (with any lifetime on the reference).
pub open spec fn is_pin_spawner_type(ty: TypeShape, n: usize) -> bool {
    &&& ty is Path
    &&& ty->Path_last matches Some(seg) && {
        &&& seg.ident@ == "Pin"@
        &&& seg.args is AngleBracketed
        &&& seg.args->AngleBracketed_first matches Some(GenericArgShape::Type(inner)) && {
            &&& *inner is Reference
            &&& is_spawner_type(*(inner->Reference_elem), n)
        }
    }
}

/// Reading `N` from a parameter written `Pin<&Spawner<n>>` gives `n`, for
/// every `n`: no value of the literal is refused.
pub proof fn lemma_spawner_n_reads_literal(ty: TypeShape, n: usize)
    requires
        is_pin_spawner_type(ty, n),
    ensures
        spawner_n(ty) == Ok::<usize, MacroError>(n),
{
}

/// A non-async, non-generic function whose one parameter is written
/// `Pin<&Spawner<n>>` is accepted by `#[main]` with priority count `n`.
pub proof fn lemma_main_accepts(f: FnShape, n: usize)
    requires
        !f.is_async,
        !f.has_generics,
        f.inputs@.len() == 1,
        f.inputs@[0] matches ArgShape::Typed { ty, .. } && is_pin_spawner_type(ty, n),
    ensures
        main_verdict(f) == Ok::<usize, MacroError>(n),
{
}

/// `#[task]` accepts exactly the async, non-generic functions returning
/// `()` (or nothing) that take no `self`; parameters of any other form, of
/// any type, are fine. A `self` parameter, wherever it stands, is refused
/// with `TaskSelf` at the first one.
pub proof fn lemma_task_verdict(f: FnShape)
    ensures
        task_verdict(f) is Ok <==> (f.is_async && !f.has_generics && f.output != ReturnShape::Other
            && forall|i: int| 0 <= i < f.inputs@.len() ==> !(#[trigger] f.inputs@[i] is Receiver)),
        forall|i: int| #![trigger f.inputs@[i]]
            f.is_async && !f.has_generics && f.output != ReturnShape::Other
            && 0 <= i < f.inputs@.len() && f.inputs@[i] is Receiver
            && (forall|j: int| 0 <= j < i ==> !(#[trigger] f.inputs@[j] is Receiver))
            ==> task_verdict(f) == Err::<(), MacroError>(err(MacroErrorKind::TaskSelf, Some(f.inputs@[i]->Receiver_span))),
{
    let s = f.inputs@;
    assert forall|i: int| #![trigger f.inputs@[i]]
        f.is_async && !f.has_generics && f.output != ReturnShape::Other
        && 0 <= i < s.len() && s[i] is Receiver
        && (forall|j: int| 0 <= j < i ==> !(#[trigger] s[j] is Receiver))
        implies task_verdict(f) == Err::<(), MacroError>(err(MacroErrorKind::TaskSelf, Some(s[i]->Receiver_span))) by {
        assert(0 <= i < s.len() && s[i] is Receiver && forall|j: int| 0 <= j < i ==> !(s[j] is Receiver));
        let k = choose|k: int| 0 <= k < s.len() && s[k] is Receiver
            && forall|j: int| 0 <= j < k ==> !(s[j] is Receiver);
        assert(k == i) by {
            if k < i {
                assert(!(s[k] is Receiver));
            } else if k > i {
                assert(!(s[i] is Receiver));
            }
        }
    }
    if f.is_async && !f.has_generics && f.output != ReturnShape::Other {
        if exists|i: int| 0 <= i < s.len() && s[i] is Receiver {
            let i0 = choose|i: int| 0 <= i < s.len() && s[i] is Receiver;
            assert(s[i0] is Receiver);
            assert(0 <= i0 < s.len() && s[i0] is Receiver);
        }
    }
}

/// `ident` is exactly `name`.
fn ident_is(ident: &String, name: &str) -> (r: bool)
    ensures
        r == (ident@ == name@),
{
    let owned: String = name.to_owned();
    *ident == owned
}

fn extract_spawner_n_of(ty: &TypeShape) -> (r: Result<usize, MacroError>)
    ensures
        r == spawner_n_of(*ty),
        forall|n: usize| is_spawner_type(*ty, n) ==> r == Ok::<usize, MacroError>(n),
{
    match ty {
        TypeShape::Path { span, last } => match last {
            None => Err(MacroError { kind: MacroErrorKind::ExpectedSpawner, span: Some(*span) }),
            Some(seg) => if !ident_is(&seg.ident, "Spawner") {
                Err(MacroError { kind: MacroErrorKind::ExpectedSpawner, span: Some(seg.ident_span) })
            } else {
                match &seg.args {
                    ArgsShape::AngleBracketed { span: args_span, first } => match first {
                        Some(GenericArgShape::Const(e)) => match e {
                            ExprShape::IntLit { span: lit_span, value } => match value {
                                Some(n) => Ok(*n),
                                None => Err(MacroError { kind: MacroErrorKind::BadInt, span: Some(*lit_span) }),
                            },
                            ExprShape::Other { span: e_span } => Err(MacroError { kind: MacroErrorKind::NotIntLiteral, span: Some(*e_span) }),
                        },
                        _ => Err(MacroError { kind: MacroErrorKind::ExpectedConstN, span: Some(*args_span) }),
                    },
                    _ => Err(MacroError { kind: MacroErrorKind::SpawnerMissingN, span: Some(seg.span) }),
                }
            }
        },
        TypeShape::Reference { span, .. } => Err(MacroError { kind: MacroErrorKind::ExpectedSpawner, span: Some(*span) }),
        TypeShape::Other { span } => Err(MacroError { kind: MacroErrorKind::ExpectedSpawner, span: Some(*span) }),
    }
}

fn shape_span(ty: &TypeShape) -> (r: usize)
    ensures
        r == type_span(*ty),
{
    match ty {
        TypeShape::Path { span, .. } => *span,
        TypeShape::Reference { span, .. } => *span,
        TypeShape::Other { span } => *span,
    }
}

/// Extracts `N` from a parameter type `Pin<&Spawner<N>>` or
/// `Pin<&'static Spawner<N>>`.
pub fn extract_spawner_n(ty: &TypeShape) -> (r: Result<usize, MacroError>)
    ensures
        r == spawner_n(*ty),
        forall|n: usize| is_pin_spawner_type(*ty, n) ==> r == Ok::<usize, MacroError>(n),
{
    match ty {
        TypeShape::Path { span, last } => match last {
            None => Err(MacroError { kind: MacroErrorKind::ExpectedPin, span: Some(*span) }),
            Some(seg) => if !ident_is(&seg.ident, "Pin") {
                Err(MacroError { kind: MacroErrorKind::ExpectedPin, span: Some(seg.ident_span) })
            } else {
                match &seg.args {
                    ArgsShape::AngleBracketed { span: args_span, first } => match first {
                        Some(GenericArgShape::Type(inner)) => match &**inner {
                            TypeShape::Reference { elem, .. } => extract_spawner_n_of(&**elem),
                            other => Err(MacroError { kind: MacroErrorKind::PinArgNotRef, span: Some(shape_span(other)) }),
                        },
                        _ => Err(MacroError { kind: MacroErrorKind::PinArgNotRef, span: Some(*args_span) }),
                    },
                    _ => Err(MacroError { kind: MacroErrorKind::PinMissingArgs, span: Some(seg.span) }),
                }
            }
        },
        TypeShape::Reference { span, .. } => Err(MacroError { kind: MacroErrorKind::ExpectedPin, span: Some(*span) }),
        TypeShape::Other { span } => Err(MacroError { kind: MacroErrorKind::ExpectedPin, span: Some(*span) }),
    }
}

/// The first `self` parameter among `inputs`, if any.
pub open spec fn first_receiver(inputs: Seq<ArgShape>) -> Option<usize> {
    if exists|i: int| 0 <= i < inputs.len() && inputs[i] is Receiver {
        let i = choose|i: int| 0 <= i < inputs.len() && inputs[i] is Receiver
            && forall|j: int| 0 <= j < i ==> !(inputs[j] is Receiver);
        Some(inputs[i]->Receiver_span)
    } else {
        None
    }
}

/// The verdict of `#[task]` on a signature.
pub open spec fn task_verdict(f: FnShape) -> Result<(), MacroError> {
    if !f.is_async {
        Err(err(MacroErrorKind::TaskNotAsync, None))
    } else if f.has_generics {
        Err(err(MacroErrorKind::TaskGeneric, None))
    } else if f.output == ReturnShape::Other {
        Err(err(MacroErrorKind::TaskReturn, None))
    } else {
        match first_receiver(f.inputs@) {
            Some(span) => Err(err(MacroErrorKind::TaskSelf, Some(span))),
            None => Ok(()),
        }
    }
}

/// Checks a `#[task]` signature: an async, non-generic function returning
/// `()` and taking no `self`.
pub fn check_task(f: &FnShape) -> (r: Result<(), MacroError>)
    ensures
        r == task_verdict(*f),
        r is Ok <==> (f.is_async && !f.has_generics && f.output != ReturnShape::Other
            && forall|i: int| 0 <= i < f.inputs@.len() ==> !(#[trigger] f.inputs@[i] is Receiver)),
        f.is_async && !f.has_generics && f.output != ReturnShape::Other
            && (exists|i: int| 0 <= i < f.inputs@.len() && #[trigger] f.inputs@[i] is Receiver)
            ==> (r matches Err(e) && e.kind == MacroErrorKind::TaskSelf),
{
    if !f.is_async {
        return Err(MacroError { kind: MacroErrorKind::TaskNotAsync, span: None });
    }
    if f.has_generics {
        return Err(MacroError { kind: MacroErrorKind::TaskGeneric, span: None });
    }
    if f.output == ReturnShape::Other {
        return Err(MacroError { kind: MacroErrorKind::TaskReturn, span: None });
    }
    let mut i: usize = 0;
    while i < f.inputs.len()
        invariant
            i <= f.inputs@.len(),
            f.is_async,
            !f.has_generics,
            f.output != ReturnShape::Other,
            forall|j: int| 0 <= j < i ==> !(f.inputs@[j] is Receiver),
        decreases f.inputs@.len() - i,
    {
        if let ArgShape::Receiver { span } = &f.inputs[i] {
            proof {
                let s = f.inputs@;
                assert(s[i as int] is Receiver);
                assert(0 <= i < s.len() && s[i as int] is Receiver
                    && forall|j: int| 0 <= j < i ==> !(s[j] is Receiver));
                let k = choose|k: int| 0 <= k < s.len() && s[k] is Receiver
                    && forall|j: int| 0 <= j < k ==> !(s[j] is Receiver);
                assert(k == i) by {
                    if k < i {
                        assert(!(s[k] is Receiver));
                    } else if k > i {
                        assert(!(s[i as int] is Receiver));
                    }
                }
            }
            return Err(MacroError { kind: MacroErrorKind::TaskSelf, span: Some(*span) });
        }
        i = i + 1;
    }
    Ok(())
}

/// The verdict of `#[main]`: the spawner's priority count `N` on success.
pub open spec fn main_verdict(f: FnShape) -> Result<usize, MacroError> {
    if f.is_async {
        Err(err(MacroErrorKind::MainAsync, None))
    } else if f.has_generics {
        Err(err(MacroErrorKind::MainGeneric, None))
    } else if f.inputs@.len() != 1 {
        Err(err(MacroErrorKind::MainArity, None))
    } else {
        match f.inputs@[0] {
            ArgShape::Receiver { span } => Err(err(MacroErrorKind::MainParam, Some(span))),
            ArgShape::Typed { ty, .. } => spawner_n(ty),
        }
    }
}

/// Checks a `#[main]` signature: a non-async, non-generic function taking
/// exactly one `Pin<&Spawner<N>>`; returns `N`.
pub fn check_main(f: &FnShape) -> (r: Result<usize, MacroError>)
    ensures
        r == main_verdict(*f),
        forall|n: usize| !f.is_async && !f.has_generics && f.inputs@.len() == 1
            && (f.inputs@[0] matches ArgShape::Typed { ty, .. } && is_pin_spawner_type(ty, n))
            ==> r == Ok::<usize, MacroError>(n),
{
    if f.is_async {
        return Err(MacroError { kind: MacroErrorKind::MainAsync, span: None });
    }
    if f.has_generics {
        return Err(MacroError { kind: MacroErrorKind::MainGeneric, span: None });
    }
    if f.inputs.len() != 1 {
        return Err(MacroError { kind: MacroErrorKind::MainArity, span: None });
    }
    match &f.inputs[0] {
        ArgShape::Receiver { span } => Err(MacroError { kind: MacroErrorKind::MainParam, span: Some(*span) }),
        ArgShape::Typed { ty, .. } => extract_spawner_n(ty),
    }
}

/// Checks an `#[interrupt]` handler and names the symbol it is exported as:
/// `MachineSoft` becomes `__Inner_MachineSoft`, any other name stays.
pub fn check_interrupt(is_async: bool, name: &String) -> (r: Result<InterruptSymbol, MacroError>)
    ensures
        is_async ==> r == Err::<InterruptSymbol, MacroError>(err(MacroErrorKind::InterruptAsync, None)),
        !is_async && name@ == "MachineSoft"@ ==> r == Ok::<InterruptSymbol, MacroError>(InterruptSymbol::InnerMachineSoft),
        !is_async && name@ != "MachineSoft"@ ==> r == Ok::<InterruptSymbol, MacroError>(InterruptSymbol::Same),
{
    if is_async {
        return Err(MacroError { kind: MacroErrorKind::InterruptAsync, span: None });
    }
    if ident_is(name, "MachineSoft") {
        Ok(InterruptSymbol::InnerMachineSoft)
    } else {
        Ok(InterruptSymbol::Same)
    }
}

} // verus!
