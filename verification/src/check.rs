//! Checks on the fields of one object, and the checker that runs them.
//!
//! A check sees the fields of an object one after the other and keeps
//! what it needs of those it has seen. It either accepts a field or
//! reports it with diagnostics.

use crate::diagnostic::{Diagnostic, Level, Span};
use crate::parse::grammar::{FieldFacts, PField};
use crate::text::str_eq;
use crate::types::is_qobject;
use vstd::prelude::*;

verus! {

/// Result of a check: success, or the diagnostics.
pub type CheckResult = Result<(), Vec<Diagnostic>>;

/// The diagnostics of a result, none for a success.
pub open spec fn result_diagnostics(result: CheckResult) -> Seq<Diagnostic> {
    match result {
        Ok(_) => Seq::empty(),
        Err(diagnostics) => diagnostics@,
    }
}

/// Reports a field whose name an earlier field of the object has.
#[derive(Debug)]
pub struct UniqueFieldCheck {
    already_defined: Vec<(String, Span)>,
}

/// Reports a field of the owner-handle type after the first one.
#[derive(Debug)]
pub struct UniqueQObjectFieldCheck {
    qobject_field: Option<Span>,
}

/// One check of the checker.
#[derive(Debug)]
pub enum Check {
    /// No two fields share a name
    UniqueField(UniqueFieldCheck),
    /// At most one field is an owner handle
    UniqueQObjectField(UniqueQObjectFieldCheck),
}

/// What a check remembers, as plain values.
pub enum CheckView {
    /// The names accepted so far, each with the place of its declaration
    UniqueField(Seq<(Seq<char>, Span)>),
    /// The place of the type of the first owner-handle field
    UniqueQObjectField(Option<Span>),
}

/// The place that goes with the first entry of `name` at or after `from`.
pub open spec fn first_declared(seen: Seq<(Seq<char>, Span)>, name: Seq<char>, from: int) -> Option<
    Span,
>
    decreases seen.len() - from,
{
    if from < 0 || from >= seen.len() {
        None
    } else if seen[from].0 == name {
        Some(seen[from].1)
    } else {
        first_declared(seen, name, from + 1)
    }
}

/// Whether the check reports the field.
pub open spec fn check_fails(check: CheckView, field: FieldFacts) -> bool {
    match check {
        CheckView::UniqueField(seen) => first_declared(seen, field.name, 0) is Some,
        CheckView::UniqueQObjectField(first) => field.owner && first is Some,
    }
}

/// What the check remembers after the field: a reported field leaves no
/// trace.
pub open spec fn check_next(check: CheckView, field: FieldFacts) -> CheckView {
    match check {
        CheckView::UniqueField(seen) => if first_declared(seen, field.name, 0) is Some {
            check
        } else {
            CheckView::UniqueField(seen.push((field.name, field.name_span)))
        },
        CheckView::UniqueQObjectField(first) => if field.owner && first is None {
            CheckView::UniqueQObjectField(Some(field.ty_span))
        } else {
            check
        },
    }
}

/// Whether `diagnostic` is the report of the check on the field: an error
/// at the field's name, with a note at the first declaration.
pub open spec fn check_reports(check: CheckView, field: FieldFacts, diagnostic: Diagnostic) -> bool {
    match check {
        CheckView::UniqueField(seen) => diagnostic.is_with_child(
            Level::Error,
            "Field `"@ + field.name + "` is already declared"@,
            field.name_span,
            Level::Note,
            "`"@ + field.name + "` first declared here."@,
            seq![first_declared(seen, field.name, 0)->0],
        ),
        CheckView::UniqueQObjectField(first) => diagnostic.is_with_child(
            Level::Error,
            "Duplicated `QObject` type field"@,
            field.name_span,
            Level::Note,
            "first declared here."@,
            seq![first->0],
        ),
    }
}

/// Whether `result` is what the check answers for the field.
pub open spec fn check_answers(check: CheckView, field: FieldFacts, result: CheckResult) -> bool {
    match result {
        Ok(_) => !check_fails(check, field),
        Err(diagnostics) => check_fails(check, field) && diagnostics@.len() == 1 && check_reports(
            check,
            field,
            diagnostics@[0],
        ),
    }
}

impl View for UniqueFieldCheck {
    type V = Seq<(Seq<char>, Span)>;

    closed spec fn view(&self) -> Seq<(Seq<char>, Span)> {
        self.already_defined@.map_values(|entry: (String, Span)| (entry.0@, entry.1))
    }
}

impl View for UniqueQObjectFieldCheck {
    type V = Option<Span>;

    closed spec fn view(&self) -> Option<Span> {
        self.qobject_field
    }
}

impl View for Check {
    type V = CheckView;

    open spec fn view(&self) -> CheckView {
        match self {
            Check::UniqueField(check) => CheckView::UniqueField(check@),
            Check::UniqueQObjectField(check) => CheckView::UniqueQObjectField(check@),
        }
    }
}

impl UniqueFieldCheck {
    /// A check that has seen no field.
    pub fn new() -> (result: Self)
        ensures
            result@ == Seq::<(Seq<char>, Span)>::empty(),
    {
        let result = UniqueFieldCheck { already_defined: Vec::new() };
        proof {
            assert(result@ =~= Seq::<(Seq<char>, Span)>::empty());
        }
        result
    }

    fn find(&self, name: &str) -> (result: Option<Span>)
        ensures
            result == first_declared(self@, name@, 0),
    {
        let mut i: usize = 0;
        while i < self.already_defined.len()
            invariant
                i <= self.already_defined.len(),
                first_declared(self@, name@, i as int) == first_declared(self@, name@, 0),
            decreases self.already_defined.len() - i,
        {
            if str_eq(self.already_defined[i].0.as_str(), name) {
                return Some(self.already_defined[i].1);
            }
            i += 1;
        }
        None
    }

    /// Checks a field: reports it where an accepted field has its name,
    /// with a note at that field's declaration; else accepts and
    /// remembers it.
    pub fn check(&mut self, input: &PField) -> (result: CheckResult)
        ensures
            final(self)@ == check_next(CheckView::UniqueField(old(self)@), input.facts())
                ->UniqueField_0,
            check_answers(CheckView::UniqueField(old(self)@), input.facts(), result),
    {
        let name = input.name.as_str();
        match self.find(name) {
            Some(span) => {
                let mut note_text = String::from_str("`");
                note_text.append(name);
                note_text.append("` first declared here.");
                let note = Diagnostic::new(Level::Note).with_message(note_text.as_str()).with_span(
                    span,
                );
                let mut text = String::from_str("Field `");
                text.append(name);
                text.append("` is already declared");
                let diagnostic = Diagnostic::new(Level::Error).with_message(
                    text.as_str(),
                ).with_span(input.name_span).add_child(note);
                let mut diagnostics: Vec<Diagnostic> = Vec::new();
                diagnostics.push(diagnostic);
                Err(diagnostics)
            },
            None => {
                let ghost before = self@;
                self.already_defined.push((String::from_str(name), input.name_span));
                proof {
                    assert(self@ =~= before.push((input.name@, input.name_span)));
                }
                Ok(())
            },
        }
    }
}

impl UniqueQObjectFieldCheck {
    /// A check that has seen no field.
    pub fn new() -> (result: Self)
        ensures
            result@ is None,
    {
        UniqueQObjectFieldCheck { qobject_field: None }
    }

    /// Checks a field: reports an owner-handle field after the first one,
    /// with a note at the first one's type; accepts every other field.
    pub fn check(&mut self, input: &PField) -> (result: CheckResult)
        ensures
            final(self)@ == check_next(CheckView::UniqueQObjectField(old(self)@), input.facts())
                ->UniqueQObjectField_0,
            check_answers(CheckView::UniqueQObjectField(old(self)@), input.facts(), result),
    {
        if is_qobject(&input.ty) {
            if let Some(span) = self.qobject_field {
                let note = Diagnostic::new(Level::Note).with_message(
                    "first declared here.",
                ).with_span(span);
                let diagnostic = Diagnostic::new(Level::Error).with_message(
                    "Duplicated `QObject` type field",
                ).with_span(input.name_span).add_child(note);
                let mut diagnostics: Vec<Diagnostic> = Vec::new();
                diagnostics.push(diagnostic);
                Err(diagnostics)
            } else {
                self.qobject_field = Some(input.ty.span);
                Ok(())
            }
        } else {
            Ok(())
        }
    }
}

impl Check {
    /// Checks a field with the check that this is.
    pub fn check(&mut self, input: &PField) -> (result: CheckResult)
        ensures
            final(self)@ == check_next(old(self)@, input.facts()),
            check_answers(old(self)@, input.facts(), result),
    {
        match self {
            Check::UniqueField(check) => check.check(input),
            Check::UniqueQObjectField(check) => check.check(input),
        }
    }
}

/// The views of a sequence of checks.
pub open spec fn check_views(checks: Seq<Check>) -> Seq<CheckView> {
    checks.map_values(|check: Check| check@)
}

/// What the checks remember after the field, each for itself.
pub open spec fn checks_next(checks: Seq<CheckView>, field: FieldFacts) -> Seq<CheckView> {
    checks.map_values(|check: CheckView| check_next(check, field))
}

/// The number of the checks that report the field.
pub open spec fn failures(checks: Seq<CheckView>, field: FieldFacts) -> nat
    decreases checks.len(),
{
    if checks.len() == 0 {
        0
    } else if check_fails(checks.last(), field) {
        failures(checks.drop_last(), field) + 1
    } else {
        failures(checks.drop_last(), field)
    }
}

/// Whether `diagnostics` are the reports of the checks on the field: one
/// from each check that reports it, in the order of the checks.
pub open spec fn checks_report(
    checks: Seq<CheckView>,
    field: FieldFacts,
    diagnostics: Seq<Diagnostic>,
) -> bool
    decreases checks.len(),
{
    if checks.len() == 0 {
        diagnostics.len() == 0
    } else if check_fails(checks.last(), field) {
        &&& diagnostics.len() > 0
        &&& check_reports(checks.last(), field, diagnostics.last())
        &&& checks_report(checks.drop_last(), field, diagnostics.drop_last())
    } else {
        checks_report(checks.drop_last(), field, diagnostics)
    }
}

/// As many diagnostics are reported as checks fail.
pub proof fn lemma_reports_count(
    checks: Seq<CheckView>,
    field: FieldFacts,
    diagnostics: Seq<Diagnostic>,
)
    requires
        checks_report(checks, field, diagnostics),
    ensures
        diagnostics.len() == failures(checks, field),
    decreases checks.len(),
{
    if checks.len() > 0 {
        if check_fails(checks.last(), field) {
            lemma_reports_count(checks.drop_last(), field, diagnostics.drop_last());
        } else {
            lemma_reports_count(checks.drop_last(), field, diagnostics);
        }
    }
}

/// A composite checker
///
/// A checker holds several checks. For a given field it applies each
/// check, one after the other, whatever the others answer.
#[derive(Debug)]
pub struct Checker {
    checks: Vec<Check>,
}

impl View for Checker {
    type V = Seq<CheckView>;

    closed spec fn view(&self) -> Seq<CheckView> {
        check_views(self.checks@)
    }
}

impl Checker {
    /// Creates a new `Checker` without check.
    pub fn new() -> (result: Self)
        ensures
            result@ == Seq::<CheckView>::empty(),
    {
        let result = Checker { checks: Vec::new() };
        proof {
            assert(result@ =~= Seq::<CheckView>::empty());
        }
        result
    }

    /// Adds a check. Checks are run in the order in which they are added.
    pub fn with_check(self, check: Check) -> (result: Self)
        ensures
            result@ == self@.push(check@),
    {
        let mut checks = self.checks;
        checks.push(check);
        let result = Checker { checks };
        proof {
            assert(result@ =~= self@.push(check@));
        }
        result
    }

    /// Merges two results: a success where both are, else the diagnostics
    /// of the first followed by those of the second.
    pub fn fold_result(first: CheckResult, second: CheckResult) -> (result: CheckResult)
        ensures
            result is Ok <==> first is Ok && second is Ok,
            result_diagnostics(result) == result_diagnostics(first) + result_diagnostics(second),
    {
        match (first, second) {
            (Ok(_), Ok(_)) => {
                proof {
                    assert(Seq::<Diagnostic>::empty() + Seq::<Diagnostic>::empty()
                        =~= Seq::<Diagnostic>::empty());
                }
                Ok(())
            },
            (Ok(_), Err(diagnostics)) => {
                proof {
                    assert(Seq::<Diagnostic>::empty() + diagnostics@ =~= diagnostics@);
                }
                Err(diagnostics)
            },
            (Err(diagnostics), Ok(_)) => {
                proof {
                    assert(diagnostics@ + Seq::<Diagnostic>::empty() =~= diagnostics@);
                }
                Err(diagnostics)
            },
            (Err(mut first), Err(mut second)) => {
                first.append(&mut second);
                Err(first)
            },
        }
    }

    /// Performs the checks on a field.
    ///
    /// Every check runs, and each remembers the field for itself. The
    /// result is a success where no check reports the field, else the
    /// reports of all the checks that do, in the order of the checks.
    pub fn check(&mut self, input: &PField) -> (result: CheckResult)
        ensures
            final(self)@ == checks_next(old(self)@, input.facts()),
            result is Ok <==> failures(old(self)@, input.facts()) == 0,
            checks_report(old(self)@, input.facts(), result_diagnostics(result)),
    {
        let ghost before = self@;
        let ghost field = input.facts();
        let mut result: CheckResult = Ok(());
        let n = self.checks.len();
        let mut i: usize = 0;
        while i < n
            invariant
                i <= n,
                n == self.checks.len(),
                before.len() == n,
                field == input.facts(),
                forall|k: int| 0 <= k < i ==> (#[trigger] self@[k]) == check_next(before[k], field),
                forall|k: int| i <= k < n ==> (#[trigger] self@[k]) == before[k],
                result is Ok <==> failures(before.subrange(0, i as int), field) == 0,
                checks_report(before.subrange(0, i as int), field, result_diagnostics(result)),
            decreases n - i,
        {
            let ghost prefix = before.subrange(0, i as int);
            let ghost longer = before.subrange(0, i + 1);
            let ghost reported = result_diagnostics(result);
            let ghost state = self@;
            let answer = self.checks[i].check(input);
            proof {
                assert(longer.drop_last() =~= prefix);
                assert(longer.last() == before[i as int]);
                assert(state[i as int] == before[i as int]);
                assert forall|k: int| 0 <= k < n && k != i implies (#[trigger] self@[k])
                    == state[k] by {}
                lemma_reports_count(prefix, field, reported);
                if answer is Err {
                    let all = reported + result_diagnostics(answer);
                    assert(all.drop_last() =~= reported);
                    assert(all.last() == result_diagnostics(answer)[0]);
                } else {
                    assert(reported + result_diagnostics(answer) =~= reported);
                }
            }
            result = Checker::fold_result(result, answer);
            i += 1;
        }
        proof {
            assert(before.subrange(0, n as int) =~= before);
            assert(self@ =~= checks_next(before, field));
        }
        result
    }
}

} // verus!
