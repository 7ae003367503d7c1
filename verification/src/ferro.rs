//! The engine: the context that tasks share, the contracts that modules and
//! their output meet, tasks, playbooks, and the lookup of a value by its path.

use crate::text::{index_in, join, parse_index, split, split_on, strings_view, Index};
use crate::value::{lemma_array_view, lemma_object_view, object_get, Json, Value};
use crate::when::When;
use vstd::hash_map::StringHashMap;
use vstd::prelude::*;

verus! {

/// What a module hands back when it has done its work.
pub struct Response {
    pub changed: bool,
    pub output: Option<Box<dyn Output>>,
}

/// A failure, as text. `changed` says whether something was altered before the
/// failure came: a failed action may still have left its mark.
#[derive(Debug)]
pub struct Error {
    pub changed: bool,
    pub description: String,
}

impl Error {
    /// The failure as it is shown: its description.
    pub fn message(&self) -> (r: String)
        ensures
            r@ == self.description@,
    {
        self.description.clone()
    }
}

/// An action that a task can run. `names` says which names the action may
/// go by; `applies` and `destroys` say which results it may give. Each admits
/// anything, unless the module says otherwise.
pub trait Module {
    open spec fn names(&self, r: String) -> bool {
        true
    }

    open spec fn applies(
        &self,
        vars: Map<Seq<char>, Seq<char>>,
        state: Map<Seq<char>, Json>,
        r: Result<Response, Error>,
    ) -> bool {
        true
    }

    open spec fn destroys(&self, r: Result<Response, Error>) -> bool {
        true
    }

    fn name(&self) -> (r: String)
        ensures
            self.names(r),
    ;

    fn apply(&self, context: &Context) -> (r: Result<Response, Error>)
        ensures
            self.applies(context.vars_model(), context.state_model(), r),
    ;

    fn destroy(&self) -> (r: Result<Response, Error>)
        ensures
            self.destroys(r),
    ;
}

/// What a module produced, as far as the engine cares: something that converts
/// to a structured value. `converts` says what the conversion may give:
/// anything, unless the output says otherwise.
pub trait Output {
    open spec fn converts(&self, r: Result<Value, Error>) -> bool {
        true
    }

    fn to_value(&self) -> (r: Result<Value, Error>)
        ensures
            self.converts(r),
    ;
}

/// What the tasks of one run share: the variables given at the start, and
/// what the tasks so far have produced, by task description.
pub struct Context {
    pub vars: StringHashMap<String>,
    pub state: StringHashMap<Value>,
}

impl Context {
    /// The variables, as a map from names to texts.
    pub open spec fn vars_model(&self) -> Map<Seq<char>, Seq<char>> {
        self.vars@.map_values(|s: String| s@)
    }

    /// The state, as a map from task descriptions to contents.
    pub open spec fn state_model(&self) -> Map<Seq<char>, Json> {
        self.state@.map_values(|v: Value| v@)
    }

    /// A context without variables and without state.
    pub fn new() -> (r: Context)
        ensures
            r.vars_model() == Map::<Seq<char>, Seq<char>>::empty(),
            r.state_model() == Map::<Seq<char>, Json>::empty(),
    {
        let r = Context { vars: StringHashMap::new(), state: StringHashMap::new() };
        assert(r.vars_model() =~= Map::<Seq<char>, Seq<char>>::empty());
        assert(r.state_model() =~= Map::<Seq<char>, Json>::empty());
        r
    }

    /// Sets the variable `name` to `value`, in place of what it held.
    pub fn set_var(&mut self, name: &str, value: &str)
        ensures
            final(self).vars_model() == old(self).vars_model().insert(name@, value@),
            final(self).state_model() == old(self).state_model(),
    {
        self.vars.insert(String::from_str(name), String::from_str(value));
        assert(self.vars_model() =~= old(self).vars_model().insert(name@, value@));
    }

    /// The variable `name`, if it is set.
    pub fn var(&self, name: &str) -> (r: Option<&String>)
        ensures
            match r {
                Some(s) => self.vars_model().contains_key(name@) && self.vars_model()[name@]
                    == s@,
                None => !self.vars_model().contains_key(name@),
            },
    {
        self.vars.get(name)
    }

    /// What the task `description` left in the state, if anything.
    pub fn output_of(&self, description: &str) -> (r: Option<&Value>)
        ensures
            match r {
                Some(v) => self.state_model().contains_key(description@)
                    && self.state_model()[description@] == v@,
                None => !self.state_model().contains_key(description@),
            },
    {
        self.state.get(description)
    }

    /// Stores `value` as the output of the task `description`. An entry that
    /// was there under this description is replaced.
    pub fn record(&mut self, description: &str, value: Value)
        ensures
            final(self).state_model() == old(self).state_model().insert(description@, value@),
            final(self).vars_model() == old(self).vars_model(),
    {
        self.state.insert(String::from_str(description), value);
        assert(self.state_model() =~= old(self).state_model().insert(description@, value@));
    }

    /// Takes in what a task produced: where `output` converts to a value, the
    /// value is stored under `description`; otherwise nothing is altered.
    pub fn absorb(&mut self, description: &str, output: &Option<Box<dyn Output>>)
        ensures
            absorbs(
                old(self).state_model(),
                description@,
                *output,
                final(self).state_model(),
            ),
            final(self).vars_model() == old(self).vars_model(),
    {
        match output {
            Some(o) => {
                let converted = o.to_value();
                let ghost came = converted;
                match converted {
                    Ok(value) => {
                        self.record(description, value);
                    },
                    Err(_) => {},
                }
                assert(o.converts(came) && self.state_model() == stored(
                    old(self).state_model(),
                    description@,
                    came,
                ));
            },
            None => {},
        }
    }
}

/// The state once a conversion has come back: a value is stored under the
/// description, in place of what was there; a failure alters nothing.
pub open spec fn stored(
    state: Map<Seq<char>, Json>,
    description: Seq<char>,
    converted: Result<Value, Error>,
) -> Map<Seq<char>, Json> {
    match converted {
        Ok(value) => state.insert(description, value@),
        Err(_) => state,
    }
}

/// `after` is a state that may follow `before` when a task's output is taken
/// in: the same state where there is no output, and else what is stored once
/// the output has been converted.
pub open spec fn absorbs(
    before: Map<Seq<char>, Json>,
    description: Seq<char>,
    output: Option<Box<dyn Output>>,
    after: Map<Seq<char>, Json>,
) -> bool {
    match output {
        Some(o) => exists|converted: Result<Value, Error>| #[trigger]
            o.converts(converted) && after == stored(before, description, converted),
        None => after == before,
    }
}

/// The output is there, and converts to `content` and to nothing else.
pub open spec fn gives(output: Option<Box<dyn Output>>, content: Json) -> bool {
    output matches Some(o) && forall|converted: Result<Value, Error>| #[trigger]
        o.converts(converted) ==> (converted matches Ok(value) && value@ == content)
}

/// The output of a module that has nothing to say. It converts to null.
#[derive(Debug)]
pub struct NullOutput;

impl Output for NullOutput {
    open spec fn converts(&self, r: Result<Value, Error>) -> bool {
        r matches Ok(value) && value@ == Json::Null
    }

    fn to_value(&self) -> (r: Result<Value, Error>) {
        Ok(Value::Null)
    }
}

#[derive(Debug)]
pub struct NullError;

/// The module that does nothing: it never fails, alters nothing, and hands
/// back a [`NullOutput`].
#[derive(Debug)]
pub struct NullModule;

impl Default for NullModule {
    fn default() -> (r: Self) {
        NullModule
    }
}

/// A response that reports no change and carries an output that converts to null.
pub open spec fn is_null_response(r: Result<Response, Error>) -> bool {
    r matches Ok(resp) && !resp.changed && gives(resp.output, Json::Null)
}

impl Module for NullModule {
    open spec fn names(&self, r: String) -> bool {
        r@ == "null"@
    }

    open spec fn applies(
        &self,
        vars: Map<Seq<char>, Seq<char>>,
        state: Map<Seq<char>, Json>,
        r: Result<Response, Error>,
    ) -> bool {
        is_null_response(r)
    }

    open spec fn destroys(&self, r: Result<Response, Error>) -> bool {
        is_null_response(r)
    }

    fn name(&self) -> (r: String) {
        String::from_str("null")
    }

    fn apply(&self, _context: &Context) -> (r: Result<Response, Error>) {
        Ok(Response { changed: false, output: Some(Box::new(NullOutput)) })
    }

    fn destroy(&self) -> (r: Result<Response, Error>) {
        Ok(Response { changed: false, output: Some(Box::new(NullOutput)) })
    }
}

/// A failure with the given flag and description.
pub fn error(changed: bool, description: String) -> (r: Error)
    ensures
        r.changed == changed,
        r.description == description,
{
    Error { changed: changed, description: description }
}

/// The failure of [`error`], as the result of a module.
pub fn result_error(changed: bool, description: String) -> (r: Result<Response, Error>)
    ensures
        r matches Err(e) && e.changed == changed && e.description == description,
{
    Err(Error { changed: changed, description: description })
}

/// A response with the given flag and output.
pub fn response(changed: bool, output: Option<Box<dyn Output>>) -> (r: Response)
    ensures
        r.changed == changed,
        r.output == output,
{
    Response { changed: changed, output: output }
}

/// The response of [`response`], as the result of a module.
pub fn result_response(changed: bool, output: Option<Box<dyn Output>>) -> (r: Result<
    Response,
    Error,
>)
    ensures
        r matches Ok(resp) && resp.changed == changed && resp.output == output,
{
    Ok(Response { changed: changed, output: output })
}

/// How a lookup by path ends.
pub enum Lookup {
    /// The path leads to this value.
    Found(Json),
    /// The path names a key that an object lacks, or an index past a list's end.
    NotFound,
    /// The path names an item of a list by something that is no number.
    NotNumeric,
}

/// Follows `segments` into `v`, one level per segment. A scalar ends the walk
/// and is the result, whatever segments are left over.
pub open spec fn walk(segments: Seq<Seq<char>>, v: Json) -> Lookup
    decreases segments.len(),
{
    if segments.len() == 0 {
        Lookup::Found(v)
    } else {
        match v {
            Json::Array(items) => match index_in(segments[0], items.len()) {
                Index::NotNumeric => Lookup::NotNumeric,
                Index::OutOfRange => Lookup::NotFound,
                Index::At(i) => walk(segments.skip(1), items[i as int]),
            },
            Json::Object(entries) => match object_get(entries, segments[0]) {
                Some(inner) => walk(segments.skip(1), inner),
                None => Lookup::NotFound,
            },
            _ => Lookup::Found(v),
        }
    }
}

/// The description of the failure to find anything at `path`.
pub open spec fn not_found_text(path: Seq<char>) -> Seq<char> {
    "value not found at path "@ + path
}

/// The description of the failure to read a segment of `path` as an index.
pub open spec fn not_numeric_text(path: Seq<char>) -> Seq<char> {
    "array index must be numeric at path "@ + path
}

/// Looks up the value at `path` in `obj`. The path is cut at each `.`; each
/// piece names a key of an object or an index of a list. A scalar met on the
/// way is the result, even if pieces remain.
pub fn find(path: &str, obj: &Value) -> (r: Result<Value, Error>)
    ensures
        match walk(split(path@, '.'), obj@) {
            Lookup::Found(v) => r matches Ok(got) && got@ == v,
            Lookup::NotFound => r matches Err(e) && !e.changed && e.description@
                == not_found_text(path@),
            Lookup::NotNumeric => r matches Err(e) && !e.changed && e.description@
                == not_numeric_text(path@),
        },
        obj@.is_scalar() ==> (r matches Ok(got) && got@ == obj@),
{
    let parts = split_on(path, '.');
    let ghost segments = strings_view(parts);
    let mut current: &Value = obj;
    let mut i: usize = 0;
    assert(segments.skip(0) =~= segments);
    proof {
        if obj@.is_scalar() {
            lemma_scalar_ends_walk(segments, obj@);
        }
    }
    while i < parts.len()
        invariant
            i <= parts.len(),
            segments == strings_view(parts),
            segments == split(path@, '.'),
            walk(segments, obj@) == walk(segments.skip(i as int), current@),
        decreases parts.len() - i,
    {
        let ghost rest = segments.skip(i as int);
        proof {
            assert(rest[0] == parts[i as int]@);
            assert(rest.skip(1) =~= segments.skip(i + 1));
        }
        match current {
            Value::Array(items) => {
                proof {
                    lemma_array_view(*items);
                }
                match parse_index(parts[i].as_str(), items.len()) {
                    Index::NotNumeric => {
                        return Err(
                            error(false, join("array index must be numeric at path ", path)),
                        );
                    },
                    Index::OutOfRange => {
                        return Err(error(false, join("value not found at path ", path)));
                    },
                    Index::At(at) => {
                        current = &items[at];
                    },
                }
            },
            Value::Object(entries) => {
                proof {
                    lemma_object_view(*entries);
                }
                match Value::entry(entries, parts[i].as_str()) {
                    Some(inner) => {
                        current = inner;
                    },
                    None => {
                        return Err(error(false, join("value not found at path ", path)));
                    },
                }
            },
            _ => {
                return Ok(current.clone());
            },
        }
        i += 1;
    }
    assert(segments.skip(i as int).len() == 0);
    Ok(current.clone())
}

/// A scalar is what any path finds in it: the walk ends there at once.
pub proof fn lemma_scalar_ends_walk(segments: Seq<Seq<char>>, v: Json)
    requires
        v.is_scalar(),
    ensures
        walk(segments, v) == Lookup::Found(v),
{
}

/// The empty list of segments finds the value it starts from.
pub proof fn lemma_no_segment_finds_all(v: Json)
    ensures
        walk(Seq::empty(), v) == Lookup::Found(v),
{
}

/// A segment that is no number, used on a list, ends the lookup as not
/// numeric; an index past the end and a key that is missing end it as not
/// found. The two failures never read alike.
pub proof fn lemma_lookup_failures(segments: Seq<Seq<char>>, v: Json, path: Seq<char>)
    requires
        segments.len() > 0,
    ensures
        (v matches Json::Array(items) && index_in(segments[0], items.len()) is NotNumeric)
            ==> walk(segments, v) == Lookup::NotNumeric,
        (v matches Json::Array(items) && index_in(segments[0], items.len()) is OutOfRange)
            ==> walk(segments, v) == Lookup::NotFound,
        (v matches Json::Object(entries) && object_get(entries, segments[0]).is_none())
            ==> walk(segments, v) == Lookup::NotFound,
        not_numeric_text(path) != not_found_text(path),
{
    reveal_strlit("value not found at path ");
    reveal_strlit("array index must be numeric at path ");
    assert(not_numeric_text(path)[0] == 'a');
    assert(not_found_text(path)[0] == 'v');
}

/// The record of one task's run.
pub struct TaskResult {
    pub module: String,
    pub succeeded: bool,
    pub changed: bool,
    pub error: Option<String>,
    pub output: Option<Box<dyn Output>>,
}

/// The record of a task that was passed over: a success that altered nothing
/// and produced nothing.
pub open spec fn skipped(r: TaskResult) -> bool {
    r.succeeded && !r.changed && r.error is None && r.output is None
}

/// The record of a failure with the given flag and text.
pub open spec fn failed_with(r: TaskResult, changed: bool, text: Seq<char>) -> bool {
    !r.succeeded && r.changed == changed && r.output is None && (r.error matches Some(t) && t@
        == text)
}

/// The record that belongs to what a module came back with: a response gives
/// a success with its flag and output, an error a failure with its flag and text.
pub open spec fn concludes(r: TaskResult, outcome: Result<Response, Error>) -> bool {
    match outcome {
        Ok(resp) => r.succeeded && r.changed == resp.changed && r.error is None && r.output
            == resp.output,
        Err(e) => failed_with(r, e.changed, e.description@),
    }
}

impl TaskResult {
    /// The record of the module `module` that came back with `outcome`.
    pub fn conclude(module: String, outcome: Result<Response, Error>) -> (r: Box<TaskResult>)
        ensures
            r.module == module,
            concludes(*r, outcome),
    {
        match outcome {
            Ok(resp) => Box::new(
                TaskResult {
                    module: module,
                    succeeded: true,
                    changed: resp.changed,
                    error: None,
                    output: resp.output,
                },
            ),
            Err(e) => Box::new(
                TaskResult {
                    module: module,
                    succeeded: false,
                    changed: e.changed,
                    error: Some(e.description),
                    output: None,
                },
            ),
        }
    }
}

/// A module under a description, guarded by a condition.
pub struct Task {
    pub description: String,
    pub module: Box<dyn Module>,
    pub when: Box<dyn When>,
}

impl Task {
    /// The records that a run may leave once the condition has given
    /// `verdict`: a failure without change for an error, the record of a
    /// skipped task for `false`, and for `true` the record of something that
    /// the module may come back with.
    pub open spec fn follows(
        &self,
        vars: Map<Seq<char>, Seq<char>>,
        state: Map<Seq<char>, Json>,
        verdict: Result<bool, Error>,
        r: TaskResult,
    ) -> bool {
        match verdict {
            Err(e) => failed_with(r, false, e.description@),
            Ok(proceed) => if proceed {
                exists|outcome: Result<Response, Error>| #[trigger]
                    self.module.applies(vars, state, outcome) && concludes(r, outcome)
            } else {
                skipped(r)
            },
        }
    }

    /// The records that a run may leave with these variables
    /// and this state.
    pub open spec fn yields(
        &self,
        vars: Map<Seq<char>, Seq<char>>,
        state: Map<Seq<char>, Json>,
        r: TaskResult,
    ) -> bool {
        self.module.names(r.module) && exists|verdict: Result<bool, Error>| #[trigger]
            self.when.decides(verdict) && self.follows(vars, state, verdict, r)
    }

    /// Runs the task: asks the condition, and applies the module only where
    /// the condition holds. Every failure ends up in the record.
    pub fn run(&self, context: &Context) -> (r: Box<TaskResult>)
        ensures
            self.yields(context.vars_model(), context.state_model(), *r),
    {
        let name = self.module.name();
        let verdict = self.when.when();
        let ghost given = verdict;
        match verdict {
            Err(e) => {
                let r = TaskResult::conclude(name, Err(error(false, e.message())));
                assert(self.follows(context.vars_model(), context.state_model(), given, *r));
                r
            },
            Ok(proceed) => {
                if proceed {
                    let outcome = self.module.apply(context);
                    let ghost came = outcome;
                    let r = TaskResult::conclude(name, outcome);
                    assert(self.module.applies(context.vars_model(), context.state_model(), came)
                        && concludes(*r, came));
                    assert(self.follows(context.vars_model(), context.state_model(), given, *r));
                    r
                } else {
                    let r = TaskResult::conclude(name, Ok(response(false, None)));
                    assert(self.follows(context.vars_model(), context.state_model(), given, *r));
                    r
                }
            },
        }
    }
}

/// Where the records of a run go, one by one, as the tasks end.
pub trait Sink {
    fn emit(&mut self, result: &TaskResult);
}

/// The sink that drops every record.
pub struct Quiet;

impl Sink for Quiet {
    fn emit(&mut self, result: &TaskResult) {
    }
}

/// An ordered list of tasks and the context that they share.
pub struct Playbook {
    pub tasks: Vec<Task>,
    pub context: Context,
}

/// `results` are the records of the first tasks of `tasks`, run in order, and
/// `states` are the states between them, from the one that the first task
/// met to the one that the last task left: each record is one that its task
/// may leave in the state that it met, each state follows when the record's
/// output is taken in under the task's description, and no record but the
/// last is a failure.
pub open spec fn is_trace(
    tasks: Seq<Task>,
    vars: Map<Seq<char>, Seq<char>>,
    states: Seq<Map<Seq<char>, Json>>,
    results: Seq<Box<TaskResult>>,
) -> bool {
    &&& results.len() <= tasks.len()
    &&& states.len() == results.len() + 1
    &&& forall|i: int|
        0 <= i < results.len() ==> (#[trigger] tasks[i]).yields(vars, states[i], *results[i])
    &&& forall|i: int|
        0 <= i < results.len() ==> absorbs(
            states[i],
            tasks[i].description@,
            (#[trigger] results[i]).output,
            states[i + 1],
        )
    &&& forall|i: int| 0 <= i < results.len() - 1 ==> (#[trigger] results[i]).succeeded
}

/// `results` are the records of a whole run from the state `start` to the
/// state `end`: a trace that covers every task, or one that ends with a
/// failure.
pub open spec fn is_run(
    tasks: Seq<Task>,
    vars: Map<Seq<char>, Seq<char>>,
    start: Map<Seq<char>, Json>,
    results: Seq<Box<TaskResult>>,
    end: Map<Seq<char>, Json>,
) -> bool {
    &&& results.len() == tasks.len() || (results.len() > 0 && !results.last().succeeded)
    &&& exists|states: Seq<Map<Seq<char>, Json>>|
        #[trigger] is_trace(tasks, vars, states, results) && states[0] == start && states.last()
            == end
}

impl Playbook {
    /// A playbook without tasks, for a run in `context`.
    pub fn new(context: Context) -> (r: Playbook)
        ensures
            r.tasks@.len() == 0,
            r.context == context,
    {
        Playbook { tasks: Vec::new(), context: context }
    }

    /// Adds a task at the end of the playbook.
    pub fn task(&mut self, task: Task)
        ensures
            final(self).context == old(self).context,
            final(self).tasks@ == old(self).tasks@.push(task),
            final(self).tasks@.len() == old(self).tasks@.len() + 1,
            final(self).tasks@.last() == task,
            final(self).tasks@.drop_last() == old(self).tasks@,
    {
        self.tasks.push(task);
        assert(self.tasks@.drop_last() =~= old(self).tasks@);
    }

    /// Runs the tasks in order against the context, and stops after the first
    /// that fails. Each task's output goes into the state under the task's
    /// description before the next task starts, and each record goes to `sink`
    /// as soon as it is there. Returns the records of the tasks that ran.
    pub fn run_with<S: Sink>(&mut self, sink: &mut S) -> (results: Vec<Box<TaskResult>>)
        ensures
            final(self).tasks == old(self).tasks,
            final(self).context.vars_model() == old(self).context.vars_model(),
            is_run(
                old(self).tasks@,
                old(self).context.vars_model(),
                old(self).context.state_model(),
                results@,
                final(self).context.state_model(),
            ),
    {
        let ghost tasks = self.tasks@;
        let ghost vars = self.context.vars_model();
        let ghost start = self.context.state_model();
        let ghost mut states = seq![start];
        let mut results: Vec<Box<TaskResult>> = Vec::new();
        let mut halted = false;
        let mut i: usize = 0;
        while i < self.tasks.len() && !halted
            invariant
                self.tasks == old(self).tasks,
                tasks == self.tasks@,
                self.context.vars_model() == vars,
                i <= tasks.len(),
                results.len() == i,
                is_trace(tasks, vars, states, results@),
                states[0] == start,
                states.last() == self.context.state_model(),
                halted ==> i > 0 && !results@.last().succeeded,
                !halted ==> forall|j: int| 0 <= j < i ==> (#[trigger] results@[j]).succeeded,
            decreases tasks.len() - i + (if halted { 0int } else { 1int }),
        {
            let result = self.tasks[i].run(&self.context);
            self.context.absorb(self.tasks[i].description.as_str(), &result.output);
            sink.emit(&result);
            let succeeded = result.succeeded;
            results.push(result);
            proof {
                states = states.push(self.context.state_model());
            }
            if !succeeded {
                halted = true;
            }
            i += 1;
        }
        results
    }

    /// Runs the tasks as [`Playbook::run_with`] does, with no one to hear of
    /// the records but the caller.
    pub fn run(&mut self) -> (results: Vec<Box<TaskResult>>)
        ensures
            final(self).tasks == old(self).tasks,
            final(self).context.vars_model() == old(self).context.vars_model(),
            is_run(
                old(self).tasks@,
                old(self).context.vars_model(),
                old(self).context.state_model(),
                results@,
                final(self).context.state_model(),
            ),
    {
        let mut sink = Quiet;
        self.run_with(&mut sink)
    }
}

/// A task whose condition can only say no is passed over: its record is a
/// success without change and without output, and taking it in leaves the
/// state as it was.
pub proof fn lemma_false_condition_skips(
    task: Task,
    vars: Map<Seq<char>, Seq<char>>,
    state: Map<Seq<char>, Json>,
    r: TaskResult,
    after: Map<Seq<char>, Json>,
)
    requires
        task.yields(vars, state, r),
        forall|verdict: Result<bool, Error>| #[trigger]
            task.when.decides(verdict) ==> verdict == Ok::<bool, Error>(false),
        absorbs(state, task.description@, r.output, after),
    ensures
        r.succeeded,
        !r.changed,
        r.output is None,
        r.error is None,
        after == state,
{
}

/// A record without output leaves the state as it was.
pub proof fn lemma_no_output_keeps_state(
    state: Map<Seq<char>, Json>,
    description: Seq<char>,
    after: Map<Seq<char>, Json>,
)
    requires
        absorbs(state, description, None, after),
    ensures
        after == state,
{
}

/// Of two outputs taken in under one description, the later one is what the
/// state holds there: where it converts to `content`, the state is as if the
/// earlier one had never been stored.
pub proof fn lemma_later_output_replaces(
    state: Map<Seq<char>, Json>,
    description: Seq<char>,
    first: Option<Box<dyn Output>>,
    between: Map<Seq<char>, Json>,
    second: Option<Box<dyn Output>>,
    content: Json,
    after: Map<Seq<char>, Json>,
)
    requires
        absorbs(state, description, first, between),
        absorbs(between, description, second, after),
        gives(second, content),
    ensures
        after == state.insert(description, content),
        after[description] == content,
{
    assert(between.insert(description, content) =~= state.insert(description, content));
}

/// A run stops at the first failure: every record but the last is a success,
/// and where tasks were left out, the last record is a failure.
pub proof fn lemma_run_is_fail_fast(
    tasks: Seq<Task>,
    vars: Map<Seq<char>, Seq<char>>,
    start: Map<Seq<char>, Json>,
    results: Seq<Box<TaskResult>>,
    end: Map<Seq<char>, Json>,
)
    requires
        is_run(tasks, vars, start, results, end),
    ensures
        results.len() <= tasks.len(),
        tasks.len() > 0 ==> results.len() > 0,
        forall|i: int| 0 <= i < results.len() ==> (!(#[trigger] results[i]).succeeded ==> i
            == results.len() - 1),
        (forall|i: int| 0 <= i < results.len() ==> (#[trigger] results[i]).succeeded)
            ==> results.len() == tasks.len(),
{
}

/// Every way a task can end shows in its record: a success carries no error
/// text, a failure carries one and no output.
pub proof fn lemma_record_tells_all(
    task: Task,
    vars: Map<Seq<char>, Seq<char>>,
    state: Map<Seq<char>, Json>,
    r: TaskResult,
)
    requires
        task.yields(vars, state, r),
    ensures
        r.succeeded <==> r.error is None,
        !r.succeeded ==> r.output is None,
{
}

/// The state only grows during a run: what it held at the start it still
/// holds a key for after any number of tasks, and a key that it holds then
/// was there at the start or is the description of a task that ran before
/// and produced output.
pub proof fn lemma_state_only_grows(
    tasks: Seq<Task>,
    vars: Map<Seq<char>, Seq<char>>,
    states: Seq<Map<Seq<char>, Json>>,
    results: Seq<Box<TaskResult>>,
    k: int,
    key: Seq<char>,
)
    requires
        is_trace(tasks, vars, states, results),
        0 <= k <= results.len(),
    ensures
        states[0].contains_key(key) ==> states[k].contains_key(key),
        states[k].contains_key(key) ==> states[0].contains_key(key) || exists|i: int|
            0 <= i < k && tasks[i].description@ == key && (#[trigger] results[i]).output is Some,
    decreases k,
{
    if k > 0 {
        lemma_state_only_grows(tasks, vars, states, results, k - 1, key);
        let last = results[k - 1];
        assert(absorbs(states[k - 1], tasks[k - 1].description@, last.output, states[k]));
        if states[k].contains_key(key) && !states[k - 1].contains_key(key) {
            assert(tasks[k - 1].description@ == key && results[k - 1].output is Some);
        }
    }
}

} // verus!
