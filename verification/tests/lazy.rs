use ferro::ferro::Context;
use ferro::lazy::{fill, interpolate, state, string, var, with_default, Lazy};
use ferro::modules::command::Command;
use ferro::value::{Number, Value};

fn context() -> Context {
    let mut context = Context::new();
    context.set_var("name", "x");
    context.set_var("empty", "");
    context.record(
        "earlier",
        Value::Object(vec![
            (
                "outputs".to_owned(),
                Value::Object(vec![(
                    "SecurityGroup".to_owned(),
                    Value::String("sg-1".to_owned()),
                )]),
            ),
            ("count".to_owned(), Value::Number(Number::PosInt(3))),
            (
                "list".to_owned(),
                Value::Array(vec![Value::String("zero".to_owned())]),
            ),
        ]),
    );
    context
}

#[test]
fn literal_ignores_the_context() {
    assert_eq!(string("abc".to_owned()).resolve(&context()), "abc");
    assert_eq!(string("abc".to_owned()).resolve(&Context::new()), "abc");
}

#[test]
fn variable_or_empty() {
    assert_eq!(var("name".to_owned()).resolve(&context()), "x");
    assert_eq!(var("missing".to_owned()).resolve(&context()), "");
    assert_eq!(var("name".to_owned()).resolve(&Context::new()), "");
}

#[test]
fn state_text_or_empty() {
    let c = context();
    assert_eq!(
        state("earlier".to_owned(), "outputs.SecurityGroup".to_owned()).resolve(&c),
        "sg-1"
    );
    assert_eq!(state("earlier".to_owned(), "list.0".to_owned()).resolve(&c), "zero");
    assert_eq!(state("earlier".to_owned(), "count".to_owned()).resolve(&c), "");
    assert_eq!(state("earlier".to_owned(), "outputs".to_owned()).resolve(&c), "");
    assert_eq!(state("earlier".to_owned(), "outputs.Other".to_owned()).resolve(&c), "");
    assert_eq!(state("earlier".to_owned(), "list.x".to_owned()).resolve(&c), "");
    assert_eq!(state("never ran".to_owned(), "outputs".to_owned()).resolve(&c), "");
}

#[test]
fn default_where_the_first_is_empty() {
    let c = context();
    let l = with_default(var("stack_ame".to_owned()), string("fallback".to_owned()));
    assert_eq!(l.resolve(&c), "fallback");
    let l = with_default(var("name".to_owned()), string("fallback".to_owned()));
    assert_eq!(l.resolve(&c), "x");
    let l = with_default(var("empty".to_owned()), var("missing".to_owned()));
    assert_eq!(l.resolve(&c), "");
    let l = with_default(
        var("stack_ame".to_owned()),
        interpolate("foo-{}".to_owned(), vec![var("name".to_owned())]),
    );
    assert_eq!(l.resolve(&c), "foo-x");
}

#[test]
fn filling_a_template() {
    let parts = vec!["a".to_owned(), "bc".to_owned()];
    assert_eq!(fill("{}-{}", &parts), "a-bc");
    assert_eq!(fill("{}{}{}", &parts), "abc");
    assert_eq!(fill("only {}", &parts), "only a");
    assert_eq!(fill("none", &parts), "none");
    assert_eq!(fill("", &parts), "");
    assert_eq!(fill("{ } {", &parts), "{ } {");
    assert_eq!(fill("{{}}", &parts), "{a}");
    assert_eq!(fill("é{}ü", &parts), "éaü");
}

#[test]
fn interpolation_reads_the_context_at_run_time() {
    let l = interpolate("hello-{}".to_owned(), vec![var("name".to_owned())]);
    assert!(matches!(&l, Lazy::Interpolate(t, parts) if t == "hello-{}" && parts.len() == 1));

    let mut playbook_context = Context::new();
    assert_eq!(l.resolve(&playbook_context), "hello-");
    playbook_context.set_var("name", "x");
    assert_eq!(l.resolve(&playbook_context), "hello-x");
    playbook_context.set_var("name", "y");
    assert_eq!(l.resolve(&playbook_context), "hello-y");
}

#[test]
fn command_arguments_are_worked_out_when_asked() {
    let command = Command {
        command: string("/bin/echo".to_owned()),
        args: vec![
            interpolate("hello-{}".to_owned(), vec![var("name".to_owned())]),
            interpolate(
                "security group is {}".to_owned(),
                vec![state("earlier".to_owned(), "outputs.SecurityGroup".to_owned())],
            ),
        ],
        ..Default::default()
    };
    let (program, args) = command.invocation(&context());
    assert_eq!(program, "/bin/echo");
    assert_eq!(args, vec!["hello-x", "security group is sg-1"]);

    let (program, args) = command.invocation(&Context::new());
    assert_eq!(program, "/bin/echo");
    assert_eq!(args, vec!["hello-", "security group is "]);
}
