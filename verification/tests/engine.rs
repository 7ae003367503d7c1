use ferro::ferro::{
    error, response, result_error, result_response, Context, Error, Module, NullModule,
    NullOutput, Output, Playbook, Response, Sink, Task, TaskResult,
};
use ferro::value::Value;
use ferro::when::{Always, Never, When};
use std::cell::Cell;
use std::rc::Rc;

struct Text(String);

impl Output for Text {
    fn to_value(&self) -> Result<Value, Error> {
        Ok(Value::String(self.0.clone()))
    }
}

struct Malformed;

impl Output for Malformed {
    fn to_value(&self) -> Result<Value, Error> {
        Err(error(false, "cannot be converted".to_owned()))
    }
}

struct Say {
    text: String,
    calls: Rc<Cell<u32>>,
}

impl Module for Say {
    fn name(&self) -> String {
        "say".to_owned()
    }

    fn apply(&self, _context: &Context) -> Result<Response, Error> {
        self.calls.set(self.calls.get() + 1);
        result_response(true, Some(Box::new(Text(self.text.clone()))))
    }

    fn destroy(&self) -> Result<Response, Error> {
        result_response(false, None)
    }
}

struct Fails {
    changed: bool,
}

impl Module for Fails {
    fn name(&self) -> String {
        "fails".to_owned()
    }

    fn apply(&self, _context: &Context) -> Result<Response, Error> {
        result_error(self.changed, "it broke".to_owned())
    }

    fn destroy(&self) -> Result<Response, Error> {
        result_response(false, None)
    }
}

struct Garbled;

impl Module for Garbled {
    fn name(&self) -> String {
        "garbled".to_owned()
    }

    fn apply(&self, _context: &Context) -> Result<Response, Error> {
        result_response(true, Some(Box::new(Malformed)))
    }

    fn destroy(&self) -> Result<Response, Error> {
        result_response(false, None)
    }
}

struct Broken;

impl When for Broken {
    fn when(&self) -> Result<bool, Error> {
        Err(error(true, "no such program".to_owned()))
    }
}

struct Count(Vec<String>);

impl Sink for Count {
    fn emit(&mut self, result: &TaskResult) {
        self.0.push(result.module.clone());
    }
}

fn say(description: &str, text: &str, calls: &Rc<Cell<u32>>) -> Task {
    Task {
        description: description.to_owned(),
        module: Box::new(Say { text: text.to_owned(), calls: calls.clone() }),
        when: Box::new(Always),
    }
}

fn playbook(tasks: Vec<Task>) -> Playbook {
    let mut playbook = Playbook::new(Context::new());
    for task in tasks {
        playbook.task(task);
    }
    playbook
}

#[test]
fn builders_keep_what_they_are_given() {
    let e = error(true, "why".to_owned());
    assert!(e.changed);
    assert_eq!(e.description, "why");
    assert_eq!(e.message(), "why");

    let e = result_error(false, "because".to_owned()).err().unwrap();
    assert!(!e.changed);
    assert_eq!(e.description, "because");

    let r = response(true, None);
    assert!(r.changed);
    assert!(r.output.is_none());

    let r = result_response(false, Some(Box::new(NullOutput))).ok().unwrap();
    assert!(!r.changed);
    assert_eq!(r.output.unwrap().to_value().unwrap(), Value::Null);
}

#[test]
fn null_module_does_nothing() {
    let module = NullModule::default();
    assert_eq!(module.name(), "null");
    let r = module.apply(&Context::new()).ok().unwrap();
    assert!(!r.changed);
    assert_eq!(r.output.unwrap().to_value().unwrap(), Value::Null);
    let r = module.destroy().ok().unwrap();
    assert!(!r.changed);
    assert_eq!(r.output.unwrap().to_value().unwrap(), Value::Null);
}

#[test]
fn conditions_that_are_fixed() {
    assert_eq!(Always.when().ok(), Some(true));
    assert_eq!(Never.when().ok(), Some(false));
}

#[test]
fn false_condition_skips_the_task() {
    let calls = Rc::new(Cell::new(0));
    let task = Task {
        description: "do nothing".to_owned(),
        module: Box::new(Say { text: "hi".to_owned(), calls: calls.clone() }),
        when: Box::new(Never),
    };
    let r = task.run(&Context::new());
    assert_eq!(r.module, "say");
    assert!(r.succeeded);
    assert!(!r.changed);
    assert!(r.error.is_none());
    assert!(r.output.is_none());
    assert_eq!(calls.get(), 0);

    let mut pb = playbook(vec![task]);
    let results = pb.run();
    assert_eq!(results.len(), 1);
    assert!(results[0].succeeded);
    assert_eq!(pb.context.state.len(), 0);
    assert!(pb.context.output_of("do nothing").is_none());
    assert_eq!(calls.get(), 0);
}

#[test]
fn condition_error_is_a_failure_without_change() {
    let calls = Rc::new(Cell::new(0));
    let task = Task {
        description: "check".to_owned(),
        module: Box::new(Say { text: "hi".to_owned(), calls: calls.clone() }),
        when: Box::new(Broken),
    };
    let r = task.run(&Context::new());
    assert_eq!(r.module, "say");
    assert!(!r.succeeded);
    assert!(!r.changed);
    assert_eq!(r.error.as_deref(), Some("no such program"));
    assert!(r.output.is_none());
    assert_eq!(calls.get(), 0);
}

#[test]
fn module_result_becomes_the_record() {
    let calls = Rc::new(Cell::new(0));
    let r = say("speak", "hi", &calls).run(&Context::new());
    assert_eq!(r.module, "say");
    assert!(r.succeeded);
    assert!(r.changed);
    assert!(r.error.is_none());
    assert_eq!(
        r.output.as_ref().unwrap().to_value().unwrap(),
        Value::String("hi".to_owned())
    );
    assert_eq!(calls.get(), 1);

    for changed in [true, false] {
        let task = Task {
            description: "break".to_owned(),
            module: Box::new(Fails { changed: changed }),
            when: Box::new(Always),
        };
        let r = task.run(&Context::new());
        assert_eq!(r.module, "fails");
        assert!(!r.succeeded);
        assert_eq!(r.changed, changed);
        assert_eq!(r.error.as_deref(), Some("it broke"));
        assert!(r.output.is_none());
    }
}

#[test]
fn conclude_follows_the_outcome() {
    let r = TaskResult::conclude("m".to_owned(), result_response(true, None));
    assert_eq!(r.module, "m");
    assert!(r.succeeded && r.changed && r.error.is_none() && r.output.is_none());

    let r = TaskResult::conclude("m".to_owned(), result_error(true, "bad".to_owned()));
    assert!(!r.succeeded && r.changed && r.output.is_none());
    assert_eq!(r.error.as_deref(), Some("bad"));
}

#[test]
fn second_of_three_fails() {
    let calls = Rc::new(Cell::new(0));
    let mut pb = playbook(vec![
        say("first", "one", &calls),
        Task {
            description: "second".to_owned(),
            module: Box::new(Fails { changed: true }),
            when: Box::new(Always),
        },
        say("third", "three", &calls),
    ]);
    let mut sink = Count(vec![]);
    let results = pb.run_with(&mut sink);
    assert_eq!(results.len(), 2);
    assert!(results[0].succeeded);
    assert!(!results[1].succeeded);
    assert!(results[1].changed);
    assert_eq!(results[1].error.as_deref(), Some("it broke"));
    assert_eq!(calls.get(), 1);
    assert_eq!(pb.context.state.len(), 1);
    assert_eq!(pb.context.output_of("first"), Some(&Value::String("one".to_owned())));
    assert!(pb.context.output_of("second").is_none());
    assert!(pb.context.output_of("third").is_none());
    assert_eq!(sink.0, vec!["say", "fails"]);
    assert_eq!(pb.tasks.len(), 3);
}

#[test]
fn all_tasks_run_where_none_fails() {
    let calls = Rc::new(Cell::new(0));
    let mut pb = playbook(vec![
        Task {
            description: "do nothing".to_owned(),
            module: Box::new(NullModule),
            when: Box::new(Never),
        },
        Task {
            description: "do nothing again".to_owned(),
            module: Box::new(NullModule),
            when: Box::new(Always),
        },
        say("speak", "hi", &calls),
    ]);
    let results = pb.run();
    assert_eq!(results.len(), 3);
    assert!(results.iter().all(|r| r.succeeded));
    assert_eq!(results[0].module, "null");
    assert!(results[0].output.is_none());
    assert!(!results[1].changed);
    assert!(results[1].output.is_some());
    assert!(results[2].changed);
    assert_eq!(pb.context.state.len(), 2);
    assert_eq!(pb.context.output_of("do nothing again"), Some(&Value::Null));
    assert_eq!(pb.context.output_of("speak"), Some(&Value::String("hi".to_owned())));

    let mut empty = playbook(vec![]);
    assert!(empty.run().is_empty());
}

#[test]
fn same_description_keeps_the_later_output() {
    let calls = Rc::new(Cell::new(0));
    let mut pb = playbook(vec![say("same", "one", &calls), say("same", "two", &calls)]);
    let results = pb.run();
    assert_eq!(results.len(), 2);
    assert_eq!(calls.get(), 2);
    assert_eq!(pb.context.state.len(), 1);
    assert_eq!(pb.context.output_of("same"), Some(&Value::String("two".to_owned())));

    let mut context = Context::new();
    context.absorb("k", &Some(Box::new(Text("a".to_owned()))));
    context.absorb("k", &Some(Box::new(Text("b".to_owned()))));
    assert_eq!(context.output_of("k"), Some(&Value::String("b".to_owned())));
    context.absorb("k", &None);
    assert_eq!(context.output_of("k"), Some(&Value::String("b".to_owned())));
    context.absorb("k", &Some(Box::new(Malformed)));
    assert_eq!(context.output_of("k"), Some(&Value::String("b".to_owned())));
}

#[test]
fn output_that_does_not_convert_is_not_stored() {
    let mut pb = playbook(vec![Task {
        description: "garble".to_owned(),
        module: Box::new(Garbled),
        when: Box::new(Always),
    }]);
    let results = pb.run();
    assert_eq!(results.len(), 1);
    assert!(results[0].succeeded);
    assert!(results[0].error.is_none());
    assert_eq!(pb.context.state.len(), 0);
}

#[test]
fn variables_are_kept() {
    let mut context = Context::new();
    assert!(context.var("name").is_none());
    context.set_var("name", "x");
    assert_eq!(context.var("name").map(|s| s.as_str()), Some("x"));
    context.set_var("name", "y");
    assert_eq!(context.var("name").map(|s| s.as_str()), Some("y"));
    context.record("t", Value::Bool(true));
    assert_eq!(context.var("name").map(|s| s.as_str()), Some("y"));
    assert_eq!(context.output_of("t"), Some(&Value::Bool(true)));
}

#[test]
fn playbook_is_built_task_by_task() {
    let mut context = Context::new();
    context.set_var("name", "x");
    let mut pb = Playbook::new(context);
    assert!(pb.tasks.is_empty());
    assert_eq!(pb.context.var("name").map(|s| s.as_str()), Some("x"));
    pb.task(Task {
        description: "first".to_owned(),
        module: Box::new(NullModule),
        when: Box::new(Always),
    });
    pb.task(Task {
        description: "second".to_owned(),
        module: Box::new(NullModule),
        when: Box::new(Never),
    });
    assert_eq!(pb.tasks.len(), 2);
    assert_eq!(pb.tasks[0].description, "first");
    assert_eq!(pb.tasks[1].description, "second");
    let results = pb.run();
    assert_eq!(results.len(), 2);
    assert_eq!(pb.context.state.len(), 1);
    assert_eq!(pb.context.output_of("first"), Some(&Value::Null));
    assert_eq!(pb.context.var("name").map(|s| s.as_str()), Some("x"));
}
