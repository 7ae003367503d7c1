//! The module that brings a stack of cloud resources in line with a template.
//! Talking to the service is the caller's part; what to ask for next, and what
//! to make of each answer, is decided here.

use crate::ferro::{error, gives, Context, Response};
use crate::lazy::{eval, Lazy};
use crate::modules::aws::region::{chosen, get_region, region_named};
use crate::text::{contains, find_in, str_eq, strings_view};
use crate::value::{entries_view, lemma_object_view, pairs_json, Json, Value};
use rusoto_signature::region::Region;
use vstd::prelude::*;

verus! {

/// How the module can fail.
#[derive(Debug)]
pub enum Error {
    /// The service refused, or the stack ended in a state of failure: the
    /// service's own words, or the state.
    CloudFormationError(String),
    StackNotFoundError,
    RegionNotFoundError,
    NoUpdateError,
    UnknownError,
}

impl Error {
    /// What this failure reads as.
    pub open spec fn text(self) -> Seq<char> {
        match self {
            Error::CloudFormationError(message) => message@,
            Error::StackNotFoundError => "stack not found"@,
            Error::RegionNotFoundError => "region not found"@,
            Error::NoUpdateError => "no updates are to be performed"@,
            Error::UnknownError => "unknown error"@,
        }
    }

    /// This failure in words.
    pub fn describe(&self) -> (r: String)
        ensures
            r@ == self.text(),
    {
        match self {
            Error::CloudFormationError(message) => message.clone(),
            Error::StackNotFoundError => String::from_str("stack not found"),
            Error::RegionNotFoundError => String::from_str("region not found"),
            Error::NoUpdateError => String::from_str("no updates are to be performed"),
            Error::UnknownError => String::from_str("unknown error"),
        }
    }

    /// The failure behind the service's refusal to describe a stack: the
    /// stack is missing where the refusal says so, and else the refusal
    /// itself is the failure.
    pub fn from_describe(message: String) -> (r: Error)
        ensures
            contains(message@, "Stack with id"@) && contains(message@, "does not exist"@) ==> r
                == Error::StackNotFoundError,
            !(contains(message@, "Stack with id"@) && contains(message@, "does not exist"@)) ==> r
                == Error::CloudFormationError(message),
    {
        if find_in(message.as_str(), "Stack with id") && find_in(
            message.as_str(),
            "does not exist",
        ) {
            Error::StackNotFoundError
        } else {
            Error::CloudFormationError(message)
        }
    }

    /// The failure behind the service's refusal to create a stack.
    pub fn from_create(message: String) -> (r: Error)
        ensures
            r == Error::CloudFormationError(message),
    {
        Error::CloudFormationError(message)
    }

    /// The failure behind the service's refusal to update a stack: that
    /// there is nothing to update where the refusal says so, and else the
    /// refusal itself.
    pub fn from_update(message: String) -> (r: Error)
        ensures
            contains(message@, "No updates are to be performed"@) ==> r == Error::NoUpdateError,
            !contains(message@, "No updates are to be performed"@) ==> r
                == Error::CloudFormationError(message),
    {
        if find_in(message.as_str(), "No updates are to be performed") {
            Error::NoUpdateError
        } else {
            Error::CloudFormationError(message)
        }
    }
}

/// Where a stack's template comes from.
pub enum Template {
    TemplateBody(String),
    TemplateURL(String),
}

/// A template whose text or address is worked out when the task runs.
pub enum LazyTemplate {
    TemplateBody(Lazy),
    TemplateURL(Lazy),
}

impl LazyTemplate {
    /// The template, worked out against `context`.
    pub fn resolve(&self, context: &Context) -> (r: Template)
        ensures
            match *self {
                LazyTemplate::TemplateBody(body) => r matches Template::TemplateBody(s) && s@
                    == eval(body, context.vars_model(), context.state_model()),
                LazyTemplate::TemplateURL(url) => r matches Template::TemplateURL(s) && s@ == eval(
                    url,
                    context.vars_model(),
                    context.state_model(),
                ),
            },
    {
        match self {
            LazyTemplate::TemplateBody(body) => Template::TemplateBody(body.resolve(context)),
            LazyTemplate::TemplateURL(url) => Template::TemplateURL(url.resolve(context)),
        }
    }
}

/// What the service tells of a stack, as far as the module reads it: the
/// stack's state, and the outputs it declares, each with the key and the
/// value that the service gave for it.
pub struct Stack {
    pub stack_status: String,
    pub outputs: Option<Vec<(Option<String>, Option<String>)>>,
}

/// What the module reports of a stack: its outputs, by key. The list is
/// meant to hold no key twice, as [`outputs_to_map`] makes it.
#[derive(Debug)]
pub struct Output {
    pub outputs: Vec<(String, String)>,
}

/// No key stands twice in the list.
pub open spec fn keys_apart(pairs: Seq<(Seq<char>, Seq<char>)>) -> bool {
    forall|i: int, j: int|
        0 <= i < j < pairs.len() ==> (#[trigger] pairs[i]).0 != (#[trigger] pairs[j]).0
}

/// The keys and values of a list of pairs.
pub open spec fn pairs_view(pairs: Vec<(String, String)>) -> Seq<(Seq<char>, Seq<char>)> {
    Seq::new(pairs.len() as nat, |i: int| (pairs[i].0@, pairs[i].1@))
}

/// The report of a stack as content: an object whose one entry, `outputs`,
/// holds an object with one entry per output.
pub open spec fn report(pairs: Seq<(Seq<char>, Seq<char>)>) -> Json {
    Json::Object(seq![("outputs"@, pairs_json(pairs))])
}

impl crate::ferro::Output for Output {
    open spec fn converts(&self, r: Result<Value, crate::ferro::Error>) -> bool {
        r matches Ok(value) && value@ == report(pairs_view(self.outputs))
    }

    fn to_value(&self) -> (r: Result<Value, crate::ferro::Error>) {
        let mut entries: Vec<(String, Value)> = Vec::new();
        entries.push((String::from_str("outputs"), Value::from_pairs(&self.outputs)));
        proof {
            lemma_object_view(entries);
            assert(pairs_view(self.outputs) =~= Seq::new(
                self.outputs.len() as nat,
                |i: int| (self.outputs[i].0@, self.outputs[i].1@),
            ));
            assert(entries_view(entries) =~= report(pairs_view(self.outputs))->Object_0);
        }
        Ok(Value::Object(entries))
    }
}

/// The place of the first pair with the key `key`, or the list's length
/// where no pair has it.
pub open spec fn index_of(pairs: Seq<(Seq<char>, Seq<char>)>, key: Seq<char>) -> int
    decreases pairs.len(),
{
    if pairs.len() == 0 {
        0
    } else if pairs[0].0 == key {
        0
    } else {
        1 + index_of(pairs.skip(1), key)
    }
}

/// The list with `value` under `key`: in place of the value that the key had,
/// or as a new pair at the end.
pub open spec fn put(
    pairs: Seq<(Seq<char>, Seq<char>)>,
    key: Seq<char>,
    value: Seq<char>,
) -> Seq<(Seq<char>, Seq<char>)> {
    let at = index_of(pairs, key);
    if at < pairs.len() {
        pairs.update(at, (key, value))
    } else {
        pairs.push((key, value))
    }
}

/// The outputs that have both a key and a value, by key: of two with one key
/// the later one's value stands, at the place of the earlier.
pub open spec fn collected(outputs: Seq<(Option<String>, Option<String>)>) -> Seq<
    (Seq<char>, Seq<char>),
>
    decreases outputs.len(),
{
    if outputs.len() == 0 {
        Seq::empty()
    } else {
        let before = collected(outputs.drop_last());
        match outputs.last() {
            (Some(k), Some(v)) => put(before, k@, v@),
            _ => before,
        }
    }
}

/// The first pair with a key is found where no pair before it has the key.
pub proof fn lemma_index_of(pairs: Seq<(Seq<char>, Seq<char>)>, key: Seq<char>, at: int)
    requires
        0 <= at <= pairs.len(),
        forall|j: int| 0 <= j < at ==> pairs[j].0 != key,
        at < pairs.len() ==> pairs[at].0 == key,
    ensures
        index_of(pairs, key) == at,
    decreases pairs.len(),
{
    if pairs.len() > 0 && at > 0 {
        let rest = pairs.skip(1);
        assert forall|j: int| 0 <= j < at - 1 implies rest[j].0 != key by {
            assert(rest[j] == pairs[j + 1]);
        }
        lemma_index_of(rest, key, at - 1);
    }
}

/// Where a key is said to be, it is, and nowhere before.
pub proof fn lemma_index_of_finds(pairs: Seq<(Seq<char>, Seq<char>)>, key: Seq<char>)
    ensures
        0 <= index_of(pairs, key) <= pairs.len(),
        index_of(pairs, key) < pairs.len() ==> pairs[index_of(pairs, key)].0 == key,
        forall|j: int| 0 <= j < index_of(pairs, key) ==> (#[trigger] pairs[j]).0 != key,
    decreases pairs.len(),
{
    if pairs.len() > 0 && pairs[0].0 != key {
        let rest = pairs.skip(1);
        lemma_index_of_finds(rest, key);
        assert forall|j: int| 0 <= j < index_of(pairs, key) implies (#[trigger] pairs[j]).0
            != key by {
            if j > 0 {
                assert(pairs[j] == rest[j - 1]);
            }
        }
    }
}

/// A list without a key twice stays so when a value is put under a key, and
/// the key then has that value.
pub proof fn lemma_put_keeps_keys_apart(
    pairs: Seq<(Seq<char>, Seq<char>)>,
    key: Seq<char>,
    value: Seq<char>,
)
    requires
        keys_apart(pairs),
    ensures
        keys_apart(put(pairs, key, value)),
        exists|i: int|
            0 <= i < put(pairs, key, value).len() && #[trigger] put(pairs, key, value)[i] == (
                key,
                value,
            ),
{
    lemma_index_of_finds(pairs, key);
    let at = index_of(pairs, key);
    let after = put(pairs, key, value);
    assert(after[at] == (key, value));
    assert forall|i: int, j: int| 0 <= i < j < after.len() implies (#[trigger] after[i]).0 != (
    #[trigger] after[j]).0 by {
        if at < pairs.len() {
            assert(after[i].0 == pairs[i].0);
            assert(after[j].0 == pairs[j].0);
        } else if j == pairs.len() {
            assert(after[i] == pairs[i]);
        } else {
            assert(after[i] == pairs[i]);
            assert(after[j] == pairs[j]);
        }
    }
}

/// The outputs collected by key hold no key twice.
pub proof fn lemma_collected_keys_apart(outputs: Seq<(Option<String>, Option<String>)>)
    ensures
        keys_apart(collected(outputs)),
    decreases outputs.len(),
{
    if outputs.len() > 0 {
        lemma_collected_keys_apart(outputs.drop_last());
        match outputs.last() {
            (Some(k), Some(v)) => {
                lemma_put_keeps_keys_apart(collected(outputs.drop_last()), k@, v@);
            },
            _ => {},
        }
    }
}

/// Stores `value` under `key` in a list of pairs.
pub fn put_pair(pairs: &mut Vec<(String, String)>, key: String, value: String)
    ensures
        pairs_view(*final(pairs)) == put(pairs_view(*old(pairs)), key@, value@),
{
    let ghost before = pairs_view(*pairs);
    let mut i: usize = 0;
    while i < pairs.len()
        invariant
            i <= pairs.len(),
            *pairs == *old(pairs),
            before == pairs_view(*pairs),
            forall|j: int| 0 <= j < i ==> before[j].0 != key@,
        decreases pairs.len() - i,
    {
        if str_eq(pairs[i].0.as_str(), key.as_str()) {
            proof {
                lemma_index_of(before, key@, i as int);
            }
            pairs.set(i, (key, value));
            assert(pairs_view(*pairs) =~= before.update(i as int, (key@, value@)));
            return ;
        }
        i += 1;
    }
    proof {
        lemma_index_of(before, key@, i as int);
    }
    pairs.push((key, value));
    assert(pairs_view(*pairs) =~= before.push((key@, value@)));
}

/// The outputs of a stack by key, without those that lack a key or a value.
pub fn outputs_to_map(outputs: Vec<(Option<String>, Option<String>)>) -> (r: Vec<(String, String)>)
    ensures
        pairs_view(r) == collected(outputs@),
        keys_apart(pairs_view(r)),
{
    proof {
        lemma_collected_keys_apart(outputs@);
    }
    let mut pairs: Vec<(String, String)> = Vec::new();
    let mut i: usize = 0;
    assert(outputs@.take(0) =~= Seq::empty());
    assert(pairs_view(pairs) =~= Seq::empty());
    while i < outputs.len()
        invariant
            i <= outputs.len(),
            pairs_view(pairs) == collected(outputs@.take(i as int)),
        decreases outputs.len() - i,
    {
        proof {
            let next = outputs@.take(i + 1);
            assert(next.drop_last() =~= outputs@.take(i as int));
            assert(next.last() == outputs@[i as int]);
        }
        match &outputs[i] {
            (Some(k), Some(v)) => {
                put_pair(&mut pairs, k.clone(), v.clone());
            },
            _ => {},
        }
        i += 1;
    }
    assert(outputs@.take(i as int) =~= outputs@);
    pairs
}

/// What to do while a stack is on its way.
pub enum Poll {
    /// The stack has reached the state that was asked for.
    Done,
    /// The stack has ended in this state, which is one of failure.
    Failed(String),
    /// Neither: wait, and ask again.
    Wait,
}

/// Whether `status` is one of `states`.
pub open spec fn is_among(states: Seq<Seq<char>>, status: Seq<char>) -> bool {
    exists|i: int| 0 <= i < states.len() && states[i] == status
}

/// What a stack's state means for someone who waits for `desired_state` and
/// gives up on any of `states`.
pub open spec fn poll_of(states: Seq<Seq<char>>, desired_state: Seq<char>, status: Seq<char>, r: Poll) -> bool {
    if status == desired_state {
        r is Done
    } else if is_among(states, status) {
        r matches Poll::Failed(s) && s@ == status
    } else {
        r is Wait
    }
}

/// The seconds to let pass before a stack is asked for its state again.
pub const SLEEP_SECS: u64 = 5;

/// Reads a stack's state: done where it is the state waited for, failed where
/// it is one of `states`, and else a reason to wait [`SLEEP_SECS`] seconds
/// and ask again. Nothing bounds the number of times the answer is to wait.
pub fn wait_for_stack(states: &Vec<String>, desired_state: &str, status: &str) -> (r: Poll)
    ensures
        poll_of(strings_view(*states), desired_state@, status@, r),
{
    if str_eq(status, desired_state) {
        return Poll::Done;
    }
    let mut i: usize = 0;
    while i < states.len()
        invariant
            i <= states.len(),
            status@ != desired_state@,
            forall|j: int| 0 <= j < i ==> strings_view(*states)[j] != status@,
        decreases states.len() - i,
    {
        if str_eq(states[i].as_str(), status) {
            assert(strings_view(*states)[i as int] == status@);
            return Poll::Failed(String::from_str(status));
        }
        i += 1;
    }
    Poll::Wait
}

/// The states in which a stack that is being created has failed.
pub open spec fn create_failures() -> Seq<Seq<char>> {
    seq![
        "CREATE_FAILED"@,
        "DELETE_COMPLETE"@,
        "DELETE_FAILED"@,
        "ROLLBACK_FAILED"@,
        "ROLLBACK_COMPLETE"@,
    ]
}

/// The states in which a stack that is being updated has failed.
pub open spec fn update_failures() -> Seq<Seq<char>> {
    seq!["UPDATE_FAILED"@, "UPDATE_ROLLBACK_FAILED"@, "UPDATE_ROLLBACK_COMPLETE"@]
}

/// Reads the state of a stack that is being created.
pub fn wait_for_stack_create(status: &str) -> (r: Poll)
    ensures
        poll_of(create_failures(), "CREATE_COMPLETE"@, status@, r),
{
    let mut states: Vec<String> = Vec::new();
    states.push(String::from_str("CREATE_FAILED"));
    states.push(String::from_str("DELETE_COMPLETE"));
    states.push(String::from_str("DELETE_FAILED"));
    states.push(String::from_str("ROLLBACK_FAILED"));
    states.push(String::from_str("ROLLBACK_COMPLETE"));
    assert(strings_view(states) =~= create_failures());
    wait_for_stack(&states, "CREATE_COMPLETE", status)
}

/// Reads the state of a stack that is being updated.
pub fn wait_for_stack_update(status: &str) -> (r: Poll)
    ensures
        poll_of(update_failures(), "UPDATE_COMPLETE"@, status@, r),
{
    let mut states: Vec<String> = Vec::new();
    states.push(String::from_str("UPDATE_FAILED"));
    states.push(String::from_str("UPDATE_ROLLBACK_FAILED"));
    states.push(String::from_str("UPDATE_ROLLBACK_COMPLETE"));
    assert(strings_view(states) =~= update_failures());
    wait_for_stack(&states, "UPDATE_COMPLETE", status)
}

/// The capabilities that the module grants to every template.
pub fn capabilities() -> (r: Vec<String>)
    ensures
        strings_view(r) == seq![
            "CAPABILITY_IAM"@,
            "CAPABILITY_NAMED_IAM"@,
            "CAPABILITY_AUTO_EXPAND"@,
        ],
{
    let mut r: Vec<String> = Vec::new();
    r.push(String::from_str("CAPABILITY_IAM"));
    r.push(String::from_str("CAPABILITY_NAMED_IAM"));
    r.push(String::from_str("CAPABILITY_AUTO_EXPAND"));
    assert(strings_view(r) =~= seq![
        "CAPABILITY_IAM"@,
        "CAPABILITY_NAMED_IAM"@,
        "CAPABILITY_AUTO_EXPAND"@,
    ]);
    r
}

/// The stack that a description names: the first of those that the service
/// listed. A description without a stack is a failure of unknown kind.
pub fn get_stack_info(stacks: Option<Vec<Stack>>) -> (r: Result<Stack, Error>)
    ensures
        match stacks {
            Some(list) => if list.len() > 0 {
                r == Ok::<Stack, Error>(list[0])
            } else {
                r == Err::<Stack, Error>(Error::UnknownError)
            },
            None => r == Err::<Stack, Error>(Error::UnknownError),
        },
{
    match stacks {
        Some(mut list) => {
            if list.len() > 0 {
                Ok(list.swap_remove(0))
            } else {
                Err(Error::UnknownError)
            }
        },
        None => Err(Error::UnknownError),
    }
}

/// What to do once the service has been asked about the stack.
pub enum Plan {
    /// The stack is there: update it.
    Update,
    /// The stack is missing: create it.
    Create,
    /// The service could not be asked: give up with this failure.
    Fail(crate::ferro::Error),
}

/// The report of a stack's outputs, where it declares any.
pub open spec fn reports(outputs: Option<Vec<(Option<String>, Option<String>)>>, got: Option<
    Box<dyn crate::ferro::Output>,
>) -> bool {
    match outputs {
        Some(list) => gives(got, report(collected(list@))),
        None => got is None,
    }
}

/// What the module's result is once a stack has been created or updated, or
/// the attempt has failed: a response that reports a change, with the stack's
/// outputs, or a failure that may have altered something.
pub open spec fn settled_of(done: Result<Stack, Error>, r: Result<Response, crate::ferro::Error>) -> bool {
    match done {
        Ok(stack) => r matches Ok(resp) && resp.changed && reports(stack.outputs, resp.output),
        Err(e) => r matches Err(f) && f.changed && f.description@ == e.text(),
    }
}

/// The module: the stack's name and its template, both worked out when the
/// task runs, and the region in which the stack lives.
pub struct CloudFormation {
    pub stack_name: Lazy,
    pub template: LazyTemplate,
    pub region: Region,
}

impl CloudFormation {
    /// The module for a stack, in the region that the environment and the
    /// profile name. There is no module without a region.
    pub fn new(
        stack_name: Lazy,
        template: LazyTemplate,
        default_region: Option<String>,
        region: Option<String>,
        profile: Option<String>,
    ) -> (r: Result<CloudFormation, Error>)
        ensures
            match chosen(default_region, region, profile) {
                Some(name) => match region_named(name) {
                    Some(found) => r matches Ok(module) && module.stack_name == stack_name
                        && module.template == template && module.region == found,
                    None => r matches Err(e) && e is RegionNotFoundError,
                },
                None => r matches Err(e) && e is RegionNotFoundError,
            },
    {
        match get_region(default_region, region, profile) {
            Ok(found) => Ok(
                CloudFormation { stack_name: stack_name, template: template, region: found },
            ),
            Err(e) => Err(e),
        }
    }

    /// The module's name.
    pub fn name(&self) -> (r: String)
        ensures
            r@ == "cloudformation"@,
    {
        String::from_str("cloudformation")
    }

    /// What to do first, from what the service said of the stack.
    pub fn plan(info: &Result<Stack, Error>) -> (r: Plan)
        ensures
            match *info {
                Ok(_) => r is Update,
                Err(Error::StackNotFoundError) => r is Create,
                Err(e) => r matches Plan::Fail(f) && !f.changed && f.description@ == e.text(),
            },
    {
        match info {
            Ok(_) => Plan::Update,
            Err(Error::StackNotFoundError) => Plan::Create,
            Err(e) => Plan::Fail(error(false, e.describe())),
        }
    }

    /// The module's result once the stack was created or updated and has
    /// arrived (`Ok` with what the service then said of it), or once any step
    /// of that failed.
    pub fn settled(done: Result<Stack, Error>) -> (r: Result<Response, crate::ferro::Error>)
        ensures
            settled_of(done, r),
    {
        match done {
            Ok(stack) => match stack.outputs {
                Some(list) => Ok(
                    Response {
                        changed: true,
                        output: Some(Box::new(Output { outputs: outputs_to_map(list) })),
                    },
                ),
                None => Ok(Response { changed: true, output: None }),
            },
            Err(e) => Err(error(true, e.describe())),
        }
    }

    /// Whether a failed update only says that the stack is as the template
    /// wants it already. The stack is then described once more, and
    /// [`CloudFormation::unchanged`] reads the answer.
    pub fn is_no_update(failure: &Error) -> (r: bool)
        ensures
            r == (*failure is NoUpdateError),
    {
        match failure {
            Error::NoUpdateError => true,
            _ => false,
        }
    }

    /// The module's result where there was nothing to update: a response
    /// that reports no change, with the stack's outputs, or, where the stack
    /// could not be described, a failure that altered nothing.
    pub fn unchanged(info: Result<Stack, Error>) -> (r: Result<Response, crate::ferro::Error>)
        ensures
            unchanged_of(info, r),
    {
        match info {
            Ok(stack) => match stack.outputs {
                Some(list) => Ok(
                    Response {
                        changed: false,
                        output: Some(Box::new(Output { outputs: outputs_to_map(list) })),
                    },
                ),
                None => Ok(Response { changed: false, output: None }),
            },
            Err(e) => Err(error(false, e.describe())),
        }
    }

    /// Undoing the module's work: nothing is undone, and nothing is altered.
    pub fn destroy(&self) -> (r: Result<Response, crate::ferro::Error>)
        ensures
            r matches Ok(resp) && !resp.changed && resp.output is None,
    {
        Ok(Response { changed: false, output: None })
    }
}

/// What the service is asked to create or update: the stack's name, the
/// capabilities granted, and the template, by its text or by its address.
pub struct Request {
    pub stack_name: String,
    pub capabilities: Vec<String>,
    pub template_body: Option<String>,
    pub template_url: Option<String>,
}

/// The request to create or update the stack `stack_name` from `template`.
pub fn request(stack_name: &str, template: &Template) -> (r: Request)
    ensures
        r.stack_name@ == stack_name@,
        strings_view(r.capabilities) == seq![
            "CAPABILITY_IAM"@,
            "CAPABILITY_NAMED_IAM"@,
            "CAPABILITY_AUTO_EXPAND"@,
        ],
        match *template {
            Template::TemplateBody(body) => r.template_url is None && (r.template_body matches Some(
                s,
            ) && s@ == body@),
            Template::TemplateURL(url) => r.template_body is None && (r.template_url matches Some(
                s,
            ) && s@ == url@),
        },
{
    match template {
        Template::TemplateBody(body) => Request {
            stack_name: String::from_str(stack_name),
            capabilities: capabilities(),
            template_body: Some(body.clone()),
            template_url: None,
        },
        Template::TemplateURL(url) => Request {
            stack_name: String::from_str(stack_name),
            capabilities: capabilities(),
            template_body: None,
            template_url: Some(url.clone()),
        },
    }
}

/// What the module wants done next.
#[derive(Clone, Copy, Debug, PartialEq, Eq)]
pub enum Ask {
    /// Ask the service what it knows of the stack.
    Describe,
    /// Ask the service to update the stack.
    Update,
    /// Ask the service to create the stack.
    Create,
    /// Let [`SLEEP_SECS`] seconds pass.
    Sleep,
}

/// Where the module stands in its work on a stack.
#[derive(Clone, Copy, Debug, PartialEq, Eq)]
pub enum Phase {
    /// Finding out whether the stack is there.
    Look,
    /// Having the stack updated.
    Update,
    /// Finding out how far the update has come.
    AwaitUpdate,
    /// Waiting before it asks about the update again.
    PauseUpdate,
    /// Having the stack created.
    Create,
    /// Finding out how far the creation has come.
    AwaitCreate,
    /// Waiting before it asks about the creation again.
    PauseCreate,
    /// Reading the stack that has arrived.
    Read,
    /// Reading the stack that needed no update.
    Reread,
}

/// What follows an answer: the next phase, or the module's result.
pub enum Move {
    Go(Phase),
    Finish(Result<Response, crate::ferro::Error>),
}

impl Phase {
    /// What is to be done in this phase.
    pub open spec fn asks(self) -> Ask {
        match self {
            Phase::Look | Phase::AwaitUpdate | Phase::AwaitCreate | Phase::Read | Phase::Reread =>
                Ask::Describe,
            Phase::Update => Ask::Update,
            Phase::Create => Ask::Create,
            Phase::PauseUpdate | Phase::PauseCreate => Ask::Sleep,
        }
    }

    /// What is to be done in this phase.
    pub fn ask(&self) -> (r: Ask)
        ensures
            r == self.asks(),
    {
        match self {
            Phase::Look => Ask::Describe,
            Phase::AwaitUpdate => Ask::Describe,
            Phase::AwaitCreate => Ask::Describe,
            Phase::Read => Ask::Describe,
            Phase::Reread => Ask::Describe,
            Phase::Update => Ask::Update,
            Phase::Create => Ask::Create,
            Phase::PauseUpdate => Ask::Sleep,
            Phase::PauseCreate => Ask::Sleep,
        }
    }
}

/// The stack in an answer. An answer without a stack, where one was asked
/// for, is a failure of unknown kind.
pub open spec fn described(answer: Result<Option<Stack>, Error>) -> Result<Stack, Error> {
    match answer {
        Ok(Some(stack)) => Ok(stack),
        Ok(None) => Err(Error::UnknownError),
        Err(e) => Err(e),
    }
}

/// The module gives up with a failure of this flag and text.
pub open spec fn gives_up(r: Move, changed: bool, text: Seq<char>) -> bool {
    r matches Move::Finish(Err(f)) && f.changed == changed && f.description@ == text
}

/// The module goes on to the phase `next`.
pub open spec fn goes(r: Move, next: Phase) -> bool {
    r matches Move::Go(phase) && phase == next
}

/// What follows when a stack on its way was asked for its state: the stack
/// is read once it has arrived, the module gives up where the stack has
/// failed or cannot be described, and else it pauses.
pub open spec fn awaits(
    states: Seq<Seq<char>>,
    desired_state: Seq<char>,
    pause: Phase,
    answer: Result<Option<Stack>, Error>,
    r: Move,
) -> bool {
    match described(answer) {
        Err(e) => gives_up(r, true, e.text()),
        Ok(stack) => if stack.stack_status@ == desired_state {
            goes(r, Phase::Read)
        } else if is_among(states, stack.stack_status@) {
            gives_up(r, true, stack.stack_status@)
        } else {
            goes(r, pause)
        },
    }
}

/// The result where there was nothing to update: no change, the stack's
/// outputs, or a failure that altered nothing.
pub open spec fn unchanged_of(info: Result<Stack, Error>, r: Result<Response, crate::ferro::Error>) -> bool {
    match info {
        Ok(stack) => r matches Ok(resp) && !resp.changed && reports(stack.outputs, resp.output),
        Err(e) => r matches Err(f) && !f.changed && f.description@ == e.text(),
    }
}

/// What follows `answer` in the phase `phase`.
///
/// A stack that is there is updated, one that is missing is created. A
/// refusal to create or update ends the work with a failure that may have
/// altered something; only the refusal that says there is nothing to update
/// leads to reading the stack as it is, without change. After a request that
/// was accepted the stack is asked for its state until it arrives or fails.
pub open spec fn step_of(phase: Phase, answer: Result<Option<Stack>, Error>, r: Move) -> bool {
    match phase {
        Phase::Look => match described(answer) {
            Ok(_) => goes(r, Phase::Update),
            Err(Error::StackNotFoundError) => goes(r, Phase::Create),
            Err(e) => gives_up(r, false, e.text()),
        },
        Phase::Update => match answer {
            Ok(_) => goes(r, Phase::AwaitUpdate),
            Err(Error::NoUpdateError) => goes(r, Phase::Reread),
            Err(e) => gives_up(r, true, e.text()),
        },
        Phase::Create => match answer {
            Ok(_) => goes(r, Phase::AwaitCreate),
            Err(e) => gives_up(r, true, e.text()),
        },
        Phase::AwaitUpdate => awaits(
            update_failures(),
            "UPDATE_COMPLETE"@,
            Phase::PauseUpdate,
            answer,
            r,
        ),
        Phase::AwaitCreate => awaits(
            create_failures(),
            "CREATE_COMPLETE"@,
            Phase::PauseCreate,
            answer,
            r,
        ),
        Phase::PauseUpdate => goes(r, Phase::AwaitUpdate),
        Phase::PauseCreate => goes(r, Phase::AwaitCreate),
        Phase::Read => r matches Move::Finish(x) && settled_of(described(answer), x),
        Phase::Reread => r matches Move::Finish(x) && unchanged_of(described(answer), x),
    }
}

/// The stack in an answer.
pub fn stack_of(answer: Result<Option<Stack>, Error>) -> (r: Result<Stack, Error>)
    ensures
        r == described(answer),
{
    match answer {
        Ok(Some(stack)) => Ok(stack),
        Ok(None) => Err(Error::UnknownError),
        Err(e) => Err(e),
    }
}

/// What follows when a stack on its way was asked for its state.
fn await_stack(creating: bool, answer: Result<Option<Stack>, Error>) -> (r: Move)
    ensures
        creating ==> awaits(create_failures(), "CREATE_COMPLETE"@, Phase::PauseCreate, answer, r),
        !creating ==> awaits(update_failures(), "UPDATE_COMPLETE"@, Phase::PauseUpdate, answer, r),
{
    match stack_of(answer) {
        Err(e) => Move::Finish(Err(error(true, e.describe()))),
        Ok(stack) => {
            let poll = if creating {
                wait_for_stack_create(stack.stack_status.as_str())
            } else {
                wait_for_stack_update(stack.stack_status.as_str())
            };
            match poll {
                Poll::Done => Move::Go(Phase::Read),
                Poll::Failed(status) => Move::Finish(Err(error(true, status))),
                Poll::Wait => Move::Go(if creating {
                    Phase::PauseCreate
                } else {
                    Phase::PauseUpdate
                }),
            }
        },
    }
}

impl CloudFormation {
    /// Takes the work on a stack one step further: from the phase it is in
    /// and the answer to what that phase asked for, to the next phase or to
    /// the module's result. The work starts in [`Phase::Look`].
    pub fn step(phase: Phase, answer: Result<Option<Stack>, Error>) -> (r: Move)
        ensures
            step_of(phase, answer, r),
    {
        match phase {
            Phase::Look => match CloudFormation::plan(&stack_of(answer)) {
                Plan::Update => Move::Go(Phase::Update),
                Plan::Create => Move::Go(Phase::Create),
                Plan::Fail(failure) => Move::Finish(Err(failure)),
            },
            Phase::Update => match answer {
                Ok(_) => Move::Go(Phase::AwaitUpdate),
                Err(e) => if CloudFormation::is_no_update(&e) {
                    Move::Go(Phase::Reread)
                } else {
                    Move::Finish(Err(error(true, e.describe())))
                },
            },
            Phase::Create => match answer {
                Ok(_) => Move::Go(Phase::AwaitCreate),
                Err(e) => Move::Finish(Err(error(true, e.describe()))),
            },
            Phase::AwaitUpdate => await_stack(false, answer),
            Phase::AwaitCreate => await_stack(true, answer),
            Phase::PauseUpdate => Move::Go(Phase::AwaitUpdate),
            Phase::PauseCreate => Move::Go(Phase::AwaitCreate),
            Phase::Read => Move::Finish(CloudFormation::settled(stack_of(answer))),
            Phase::Reread => Move::Finish(CloudFormation::unchanged(stack_of(answer))),
        }
    }
}

/// Nothing is reported as changed unless the service accepted a request to
/// create or update: a result that comes while the module still looks for
/// the stack, or reads a stack that needed no update, reports no change.
pub proof fn lemma_no_request_no_change(
    phase: Phase,
    answer: Result<Option<Stack>, Error>,
    r: Move,
)
    requires
        step_of(phase, answer, r),
        phase == Phase::Look || phase == Phase::Reread,
    ensures
        r matches Move::Finish(Ok(resp)) ==> !resp.changed,
        r matches Move::Finish(Err(f)) ==> !f.changed,
{
}

/// Once a request to create or update was sent, every result reports a
/// change, whether the work succeeded or failed.
pub proof fn lemma_request_means_change(
    phase: Phase,
    answer: Result<Option<Stack>, Error>,
    r: Move,
)
    requires
        step_of(phase, answer, r),
        phase != Phase::Look,
        phase != Phase::Reread,
    ensures
        r matches Move::Finish(Ok(resp)) ==> resp.changed,
        r matches Move::Finish(Err(f)) ==> f.changed,
{
}

} // verus!
