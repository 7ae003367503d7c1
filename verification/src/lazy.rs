//! Values that are worked out late: a task's parameters are small expressions
//! over the context, and are read only when the task runs.

use crate::ferro::{find, walk, Context, Lookup};
use crate::text::{split, strings_view};
use crate::value::{Json, Value};
use vstd::prelude::*;

verus! {

/// An expression that gives a text once a context is there. It never fails:
/// what is missing, or is no text, reads as the empty text.
#[derive(Debug)]
pub enum Lazy {
    /// This text, whatever the context.
    Literal(String),
    /// The variable of this name.
    Var(String),
    /// The text at a path in what the task of this description produced.
    State(String, String),
    /// The first expression, or the second where the first gives the empty text.
    WithDefault(Box<Lazy>, Box<Lazy>),
    /// A template in which each `{}` stands for the next of the expressions.
    Interpolate(String, Vec<Lazy>),
}

/// `template` with each `{}` replaced by the next of `parts`, from left to
/// right. A `{}` for which no part is left is dropped; parts for which no `{}`
/// is left are not used.
pub open spec fn filled(template: Seq<char>, parts: Seq<Seq<char>>) -> Seq<char>
    decreases template.len(),
{
    if template.len() == 0 {
        Seq::empty()
    } else if template.len() >= 2 && template[0] == '{' && template[1] == '}' {
        if parts.len() > 0 {
            parts[0] + filled(template.skip(2), parts.skip(1))
        } else {
            filled(template.skip(2), parts)
        }
    } else {
        seq![template[0]] + filled(template.skip(1), parts)
    }
}

/// Replaces each `{}` of `template` by the next of `parts`.
pub fn fill(template: &str, parts: &Vec<String>) -> (r: String)
    ensures
        r@ == filled(template@, strings_view(*parts)),
{
    let n = template.unicode_len();
    let ghost t = template@;
    let ghost ps = strings_view(*parts);
    let mut out = String::new();
    let mut i: usize = 0;
    let mut k: usize = 0;
    assert(t.skip(0) =~= t);
    assert(ps.skip(0) =~= ps);
    assert(out@ + filled(t, ps) =~= filled(t, ps));
    while i < n
        invariant
            n == t.len(),
            t == template@,
            ps == strings_view(*parts),
            i <= n,
            k <= parts.len(),
            out@ + filled(t.skip(i as int), ps.skip(k as int)) == filled(t, ps),
        decreases n - i,
    {
        let ghost before = out@;
        let ghost rest = t.skip(i as int);
        let ghost left = ps.skip(k as int);
        let c = template.get_char(i);
        proof {
            assert(rest[0] == c);
            assert(rest.skip(1) =~= t.skip(i + 1));
        }
        if c == '{' && i + 1 < n && template.get_char(i + 1) == '}' {
            proof {
                assert(rest[1] == '}');
                assert(rest.skip(2) =~= t.skip(i + 2));
            }
            if k < parts.len() {
                out.append(parts[k].as_str());
                proof {
                    assert(left[0] == parts[k as int]@);
                    assert(left.skip(1) =~= ps.skip(k + 1));
                    assert(out@ + filled(t.skip(i + 2), ps.skip(k + 1)) =~= before + filled(
                        rest,
                        left,
                    ));
                }
                k += 1;
            } else {
                assert(left.len() == 0);
            }
            i += 2;
        } else {
            out.append(template.substring_char(i, i + 1));
            proof {
                assert(t.subrange(i as int, i + 1) =~= seq![c]);
                assert(out@ + filled(t.skip(i + 1), left) =~= before + filled(rest, left));
            }
            i += 1;
        }
    }
    assert(out@ + filled(t.skip(i as int), ps.skip(k as int)) =~= out@);
    out
}

/// The text that an expression gives with these variables and this state.
pub open spec fn eval(
    l: Lazy,
    vars: Map<Seq<char>, Seq<char>>,
    state: Map<Seq<char>, Json>,
) -> Seq<char>
    decreases l,
{
    match l {
        Lazy::Literal(s) => s@,
        Lazy::Var(name) => if vars.contains_key(name@) {
            vars[name@]
        } else {
            Seq::empty()
        },
        Lazy::State(description, path) => if state.contains_key(description@) {
            match walk(split(path@, '.'), state[description@]) {
                Lookup::Found(Json::String(s)) => s,
                _ => Seq::empty(),
            }
        } else {
            Seq::empty()
        },
        Lazy::WithDefault(first, second) => {
            let text = eval(*first, vars, state);
            if text.len() > 0 {
                text
            } else {
                eval(*second, vars, state)
            }
        },
        Lazy::Interpolate(template, parts) => filled(template@, eval_all(parts, vars, state)),
    }
}

/// The texts that a list of expressions gives, one by one.
pub open spec fn eval_all(
    parts: Vec<Lazy>,
    vars: Map<Seq<char>, Seq<char>>,
    state: Map<Seq<char>, Json>,
) -> Seq<Seq<char>>
    decreases parts,
{
    Seq::new(
        parts.len() as nat,
        |i: int|
            if 0 <= i < parts.len() {
                eval(parts[i], vars, state)
            } else {
                Seq::empty()
            },
    )
}

impl Lazy {
    /// Works the expression out against `context`.
    #[verifier::loop_isolation(false)]
    pub fn resolve(&self, context: &Context) -> (r: String)
        ensures
            r@ == eval(*self, context.vars_model(), context.state_model()),
        decreases self,
    {
        match self {
            Lazy::Literal(s) => s.clone(),
            Lazy::Var(name) => match context.var(name.as_str()) {
                Some(value) => value.clone(),
                None => String::new(),
            },
            Lazy::State(description, path) => match context.output_of(description.as_str()) {
                Some(task) => match find(path.as_str(), task) {
                    Ok(Value::String(s)) => s,
                    _ => String::new(),
                },
                None => String::new(),
            },
            Lazy::WithDefault(first, second) => {
                let text = first.resolve(context);
                if text.as_str().unicode_len() > 0 {
                    text
                } else {
                    second.resolve(context)
                }
            },
            Lazy::Interpolate(template, parts) => {
                let texts = resolve_all(parts, context);
                fill(template.as_str(), &texts)
            },
        }
    }
}

/// Works out each expression of a list against `context`, in order.
pub fn resolve_all(parts: &Vec<Lazy>, context: &Context) -> (texts: Vec<String>)
    ensures
        strings_view(texts) == eval_all(*parts, context.vars_model(), context.state_model()),
    decreases parts,
{
    let mut texts: Vec<String> = Vec::new();
    let mut i: usize = 0;
    while i < parts.len()
        invariant
            i <= parts.len(),
            texts.len() == i,
            forall|j: int|
                0 <= j < i ==> texts[j]@ == eval(
                    parts[j],
                    context.vars_model(),
                    context.state_model(),
                ),
        decreases parts.len() - i,
    {
        texts.push(parts[i].resolve(context));
        i += 1;
    }
    assert(strings_view(texts) =~= eval_all(
        *parts,
        context.vars_model(),
        context.state_model(),
    ));
    texts
}

/// The variable `path`, or the empty text where it is not set.
pub fn var(path: String) -> (r: Lazy)
    ensures
        r == Lazy::Var(path),
{
    Lazy::Var(path)
}

/// The text at `path` in what the task `task_description` produced, or the
/// empty text where there is no such task, no such path, or no text there.
pub fn state(task_description: String, path: String) -> (r: Lazy)
    ensures
        r == Lazy::State(task_description, path),
{
    Lazy::State(task_description, path)
}

/// What `f` gives, or what `default` gives where `f` gives the empty text.
pub fn with_default(f: Lazy, default: Lazy) -> (r: Lazy)
    ensures
        r == Lazy::WithDefault(Box::new(f), Box::new(default)),
{
    Lazy::WithDefault(Box::new(f), Box::new(default))
}

/// The text `s`.
pub fn string(s: String) -> (r: Lazy)
    ensures
        r == Lazy::Literal(s),
{
    Lazy::Literal(s)
}

/// `template` with each `{}` replaced by what the next of `parts` gives.
pub fn interpolate(template: String, parts: Vec<Lazy>) -> (r: Lazy)
    ensures
        r == Lazy::Interpolate(template, parts),
{
    Lazy::Interpolate(template, parts)
}

} // verus!
