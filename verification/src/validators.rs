//! Compiled validators and what they report.
//!
//! A validator is one compiled keyword. Run on an instance it reports the
//! violations that it finds; nothing it finds stops the others from running.
//! Only a reference that leads nowhere ends a validation, and then there is
//! no list of violations at all.

pub mod const_;
pub mod maxmin;
pub mod never;
pub mod ref_;
pub mod required;

use vstd::prelude::*;
use vstd::string::*;
use crate::number::float_le;
use crate::number::float_lt;
use crate::scope::check_outcome;
use crate::scope::outcome_view;
use crate::scope::Scope;
use crate::text::texts;
use crate::value::Json;
use crate::value::Value;

verus! {

/// The keyword that an instance violates.
#[derive(Clone, Copy, Debug, PartialEq, Eq, Structural)]
pub enum ErrorKind {
    Maximum,
    ExclusiveMaximum,
    Minimum,
    ExclusiveMinimum,
    Required,
    Const,
    Never,
}

/// One violation: the keyword, and the path in the instance where it was
/// found.
#[derive(Debug)]
pub struct ValidationError {
    pub kind: ErrorKind,
    pub path: String,
}

/// The model of a violation.
pub struct Violation {
    pub kind: ErrorKind,
    pub path: Seq<char>,
}

impl View for ValidationError {
    type V = Violation;

    open spec fn view(&self) -> Violation {
        Violation { kind: self.kind, path: self.path@ }
    }
}

/// The violations found so far, in the order in which they were found.
#[derive(Debug)]
pub struct ValidationState {
    pub errors: Vec<ValidationError>,
}

impl View for ValidationState {
    type V = Seq<Violation>;

    open spec fn view(&self) -> Seq<Violation> {
        Seq::new(self.errors@.len(), |i: int| self.errors@[i]@)
    }
}

impl ValidationState {
    /// A state without violations.
    pub fn new() -> (r: ValidationState)
        ensures
            r@ == Seq::<Violation>::empty(),
    {
        let r = ValidationState { errors: Vec::new() };
        assert(r@ =~= Seq::<Violation>::empty());
        r
    }

    /// Whether no violation was found.
    pub fn is_valid(&self) -> (r: bool)
        ensures
            r == (self@.len() == 0),
    {
        self.errors.len() == 0
    }

    /// Adds one violation at the end.
    pub fn push(&mut self, kind: ErrorKind, path: String)
        ensures
            final(self)@ == old(self)@.push(Violation { kind, path: path@ }),
    {
        self.errors.push(ValidationError { kind, path });
        assert(self@ =~= old(self)@.push(Violation { kind, path: path@ }));
    }

    /// Adds the violations of `other` at the end, in their order.
    pub fn append(&mut self, other: ValidationState)
        ensures
            final(self)@ == old(self)@ + other@,
    {
        let mut other = other;
        let ghost added = other@;
        self.errors.append(&mut other.errors);
        assert(self@ =~= old(self)@ + added);
    }
}

/// Why a validation could not be completed.
#[derive(Debug)]
pub enum ResolutionFailure {
    /// The reference names a schema that the scope does not hold.
    Unresolved { url: String },
    /// Following references from this one went deeper than the scope allows.
    Cycle { url: String },
}

/// The model of a failed resolution.
pub enum Failure {
    Unresolved { url: Seq<char> },
    Cycle { url: Seq<char> },
}

impl View for ResolutionFailure {
    type V = Failure;

    open spec fn view(&self) -> Failure {
        match self {
            ResolutionFailure::Unresolved { url } => Failure::Unresolved { url: url@ },
            ResolutionFailure::Cycle { url } => Failure::Cycle { url: url@ },
        }
    }
}

/// A compiled keyword.
#[derive(Debug)]
pub enum Validator {
    Maximum(maxmin::Maximum),
    ExclusiveMaximum(maxmin::ExclusiveMaximum),
    Minimum(maxmin::Minimum),
    ExclusiveMinimum(maxmin::ExclusiveMinimum),
    Required(required::Required),
    Const(const_::Const),
    Ref(ref_::Ref),
    Never(never::Never),
}

/// The model of a compiled keyword: what it was configured with.
pub enum Check {
    Maximum(u64),
    ExclusiveMaximum(u64),
    Minimum(u64),
    ExclusiveMinimum(u64),
    Required(Seq<Seq<char>>),
    Const(Json),
    Ref(Seq<char>),
    Never,
}

impl View for Validator {
    type V = Check;

    open spec fn view(&self) -> Check {
        match self {
            Validator::Maximum(v) => Check::Maximum(v.number@),
            Validator::ExclusiveMaximum(v) => Check::ExclusiveMaximum(v.number@),
            Validator::Minimum(v) => Check::Minimum(v.number@),
            Validator::ExclusiveMinimum(v) => Check::ExclusiveMinimum(v.number@),
            Validator::Required(v) => Check::Required(texts(v.items@)),
            Validator::Const(v) => Check::Const(v.item@),
            Validator::Ref(v) => Check::Ref(v.url@),
            Validator::Never(_) => Check::Never,
        }
    }
}

/// No violation.
pub open spec fn none() -> Seq<Violation> {
    Seq::empty()
}

/// A single violation.
pub open spec fn one(kind: ErrorKind, path: Seq<char>) -> Seq<Violation> {
    Seq::<Violation>::empty().push(Violation { kind, path })
}

/// The path of a member below `path`.
pub open spec fn member_path(path: Seq<char>, name: Seq<char>) -> Seq<char> {
    path + seq!['/'] + name
}

/// One violation for each of `names` that `instance` has no member for, in
/// the order of `names`, each at the path of the missing member.
pub open spec fn missing(names: Seq<Seq<char>>, instance: Json, path: Seq<char>) -> Seq<Violation>
    decreases names.len(),
{
    if names.len() == 0 {
        none()
    } else if instance.has_member(names.last()) {
        missing(names.drop_last(), instance, path)
    } else {
        missing(names.drop_last(), instance, path).push(
            Violation { kind: ErrorKind::Required, path: member_path(path, names.last()) },
        )
    }
}

/// What a check that looks at the instance alone reports of `instance` at
/// `path`. A bound speaks only of numbers and a list of required names only
/// of objects; any other instance passes them. A reference looks at no
/// instance itself.
pub open spec fn violations(check: Check, instance: Json, path: Seq<char>) -> Seq<Violation> {
    match check {
        Check::Maximum(n) => if instance is Number && !float_le(instance->Number_0, n) {
            one(ErrorKind::Maximum, path)
        } else {
            none()
        },
        Check::ExclusiveMaximum(n) => if instance is Number && !float_lt(instance->Number_0, n) {
            one(ErrorKind::ExclusiveMaximum, path)
        } else {
            none()
        },
        Check::Minimum(n) => if instance is Number && !float_le(n, instance->Number_0) {
            one(ErrorKind::Minimum, path)
        } else {
            none()
        },
        Check::ExclusiveMinimum(n) => if instance is Number && !float_lt(n, instance->Number_0) {
            one(ErrorKind::ExclusiveMinimum, path)
        } else {
            none()
        },
        Check::Required(names) => if instance is Object {
            missing(names, instance, path)
        } else {
            none()
        },
        Check::Const(item) => if instance.same_as(item) {
            none()
        } else {
            one(ErrorKind::Const, path)
        },
        Check::Ref(_) => none(),
        Check::Never => one(ErrorKind::Never, path),
    }
}

impl Validator {
    /// Runs the validator on `val` at `path`. It reports what it finds;
    /// only a reference that cannot be followed in `scope` makes it fail.
    pub fn validate(&self, val: &Value, path: &str, scope: &Scope, depth: usize) -> (r: Result<
        ValidationState,
        ResolutionFailure,
    >)
        requires
            scope.wf(),
        ensures
            outcome_view(r) == check_outcome(scope@, self@, val@, path@, depth as nat),
        decreases depth, 1int,
    {
        match self {
            Validator::Maximum(v) => Ok(v.validate(val, path, scope)),
            Validator::ExclusiveMaximum(v) => Ok(v.validate(val, path, scope)),
            Validator::Minimum(v) => Ok(v.validate(val, path, scope)),
            Validator::ExclusiveMinimum(v) => Ok(v.validate(val, path, scope)),
            Validator::Required(v) => Ok(v.validate(val, path, scope)),
            Validator::Const(v) => Ok(v.validate(val, path, scope)),
            Validator::Never(v) => Ok(v.validate(val, path, scope)),
            Validator::Ref(v) => v.validate(val, path, scope, depth),
        }
    }
}

} // verus!
