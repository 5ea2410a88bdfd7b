use script_validation::budget::ExBudget;
use script_validation::eval_result::EvalResult;
use script_validation::term::{BuiltinCall, Constant, MachineError, Term};

fn ended_in(result: Result<Term, MachineError>) -> EvalResult {
    EvalResult::new(
        result,
        ExBudget { mem: 40, cpu: 100 },
        ExBudget { mem: 100, cpu: 1000 },
        vec!["first".to_string(), "second".to_string()],
        vec![BuiltinCall {
            function: "addInteger".to_string(),
            arguments: vec![Constant::Integer(1), Constant::Integer(2)],
        }],
    )
}

fn machine_error() -> MachineError {
    MachineError { message: "out of budget".to_string() }
}

#[test]
fn cost_is_initial_less_remaining() {
    let result = ended_in(Ok(Term::Error));
    assert!(result.cost_is_representable());
    assert_eq!(result.cost(), ExBudget { mem: 60, cpu: 900 });
}

#[test]
fn cost_may_exceed_the_budget() {
    let result = EvalResult::new(
        Ok(Term::Error),
        ExBudget { mem: -5, cpu: -1 },
        ExBudget { mem: 10, cpu: 10 },
        vec![],
        vec![],
    );
    assert!(result.cost_is_representable());
    assert_eq!(result.cost(), ExBudget { mem: 15, cpu: 11 });
}

#[test]
fn cost_that_overflows_is_not_representable() {
    let result = EvalResult::new(
        Ok(Term::Error),
        ExBudget { mem: i64::MIN, cpu: 0 },
        ExBudget { mem: 1, cpu: 0 },
        vec![],
        vec![],
    );
    assert!(!result.cost_is_representable());
}

#[test]
fn budget_difference_is_taken_by_component() {
    let a = ExBudget { mem: 7, cpu: -3 };
    let b = ExBudget { mem: 9, cpu: 4 };
    assert_eq!(a.minus(b), ExBudget { mem: -2, cpu: -7 });
}

#[test]
fn logs_are_taken_once() {
    let mut result = ended_in(Ok(Term::Error));
    assert_eq!(result.logs(), vec!["first".to_string(), "second".to_string()]);
    assert_eq!(result.logs(), Vec::<String>::new());
    assert_eq!(result.builtin_calls().len(), 1);
}

#[test]
fn builtin_calls_are_taken_once() {
    let mut result = ended_in(Ok(Term::Error));
    let calls = result.builtin_calls();
    assert_eq!(
        calls,
        vec![BuiltinCall {
            function: "addInteger".to_string(),
            arguments: vec![Constant::Integer(1), Constant::Integer(2)],
        }]
    );
    assert_eq!(result.builtin_calls(), vec![]);
    assert_eq!(result.logs().len(), 2);
}

#[test]
fn failed_when_no_error_is_expected() {
    let ok = [Term::Constant(Constant::Bool(true)), Term::Constant(Constant::Unit)];
    for term in ok {
        assert!(!ended_in(Ok(term)).failed(false));
    }
    let bad = [
        Term::Constant(Constant::Bool(false)),
        Term::Constant(Constant::Integer(1)),
        Term::Constant(Constant::String("true".to_string())),
        Term::Constant(Constant::ByteString(vec![1])),
        Term::Error,
        Term::Other("(lam x x)".to_string()),
    ];
    for term in bad {
        assert!(ended_in(Ok(term)).failed(false));
    }
    assert!(ended_in(Err(machine_error())).failed(false));
}

#[test]
fn failed_when_an_error_is_expected() {
    assert!(!ended_in(Err(machine_error())).failed(true));
    assert!(!ended_in(Ok(Term::Constant(Constant::Bool(false)))).failed(true));
    let bad = [
        Term::Constant(Constant::Bool(true)),
        Term::Constant(Constant::Unit),
        Term::Constant(Constant::Integer(0)),
        Term::Error,
        Term::Other("(delay x)".to_string()),
    ];
    for term in bad {
        assert!(ended_in(Ok(term)).failed(true));
    }
}

#[test]
fn unwrap_constant_gives_the_constant() {
    let result = ended_in(Ok(Term::Constant(Constant::ByteString(vec![1, 2]))));
    assert_eq!(result.unwrap_constant(), Ok(Constant::ByteString(vec![1, 2])));
    assert_eq!(ended_in(Ok(Term::Constant(Constant::Unit))).unwrap_constant(), Ok(Constant::Unit));
}

#[test]
fn unwrap_constant_fails_on_anything_else() {
    assert_eq!(ended_in(Ok(Term::Error)).unwrap_constant(), Err(()));
    assert_eq!(ended_in(Ok(Term::Other("x".to_string()))).unwrap_constant(), Err(()));
    assert_eq!(ended_in(Err(machine_error())).unwrap_constant(), Err(()));
}

#[test]
fn result_is_a_copy_of_the_end() {
    let result = ended_in(Ok(Term::Constant(Constant::String("done".to_string()))));
    assert_eq!(result.result(), Ok(Term::Constant(Constant::String("done".to_string()))));
    assert_eq!(result.result(), result.result());
    assert_eq!(ended_in(Err(machine_error())).result(), Err(machine_error()));
    assert_eq!(ended_in(Ok(Term::Other("t".to_string()))).result(), Ok(Term::Other("t".to_string())));
}
