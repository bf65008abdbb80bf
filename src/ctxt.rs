use vstd::prelude::*;

verus! {

/// What is wrong with an injected parameter.
#[derive(Clone, Copy, Debug, PartialEq, Eq, Structural)]
pub enum DiagnosticKind {
    /// The parameter binds a destructuring pattern rather than a plain name.
    PatternNotInjectable,
    /// The parameter's type is not `Arc<T>` for exactly one type `T`.
    OnlyArcInjectable,
}

impl DiagnosticKind {
    pub open spec fn message_spec(self) -> Seq<char> {
        match self {
            DiagnosticKind::PatternNotInjectable => "pattern cannot be injected"@,
            DiagnosticKind::OnlyArcInjectable => "only Arc<...> can be injected"@,
        }
    }

    /// The text shown to the user for this kind of diagnostic.
    pub fn message(&self) -> (r: &'static str)
        ensures
            r@ == self.message_spec(),
    {
        match self {
            DiagnosticKind::PatternNotInjectable => "pattern cannot be injected",
            DiagnosticKind::OnlyArcInjectable => "only Arc<...> can be injected",
        }
    }
}

/// A build-time error, attached to the parameter at position `param`: to its
/// pattern for `PatternNotInjectable`, to its type for `OnlyArcInjectable`.
#[derive(Clone, Copy, Debug, PartialEq, Eq, Structural)]
pub struct Diagnostic {
    pub param: usize,
    pub kind: DiagnosticKind,
}

/// Collects diagnostics so that every error of a signature is reported.
pub struct Ctxt {
    errors: Vec<Diagnostic>,
}

impl View for Ctxt {
    type V = Seq<Diagnostic>;

    closed spec fn view(&self) -> Seq<Diagnostic> {
        self.errors@
    }
}

impl Ctxt {
    pub fn new() -> (r: Self)
        ensures
            r@ == Seq::<Diagnostic>::empty(),
    {
        Ctxt { errors: Vec::new() }
    }

    /// Records an error of kind `message` at the parameter `param`.
    pub fn push_spanned(&mut self, param: usize, message: DiagnosticKind)
        ensures
            final(self)@ == old(self)@.push(Diagnostic { param, kind: message }),
    {
        self.errors.push(Diagnostic { param, kind: message });
    }

    /// `Ok` when nothing was recorded, else every recorded error in order.
    pub fn check(self) -> (r: Result<(), Vec<Diagnostic>>)
        ensures
            self@.len() == 0 <==> r is Ok,
            r matches Err(e) ==> e@ == self@,
    {
        let errors = self.errors;
        if errors.len() == 0 {
            Ok(())
        } else {
            Err(errors)
        }
    }
}

} // verus!
