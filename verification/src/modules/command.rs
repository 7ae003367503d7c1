//! The module that runs a local command. Running it is the caller's part;
//! what to run, and what to make of how it ended, is decided here.

use crate::ferro::{error, gives, Context, Response};
use crate::lazy::{eval, eval_all, resolve_all, Lazy};
use crate::text::{lines, split_lines, strings_view};
use crate::value::{entries_view, lemma_object_view, texts_json, Json, Number, Value};
use vstd::prelude::*;
use vstd::utf8::{decode_utf8, valid_utf8};

verus! {

/// How the module itself can fail, apart from the command.
#[derive(Debug)]
pub enum Error {
    InvalidCommandError,
    CommandError,
}

impl Error {
    /// What this failure reads as.
    pub open spec fn text(self) -> Seq<char> {
        match self {
            Error::InvalidCommandError => "invalid command"@,
            Error::CommandError => "command error"@,
        }
    }

    /// This failure as a failure of the engine: nothing was altered.
    pub fn into_failure(self) -> (r: crate::ferro::Error)
        ensures
            !r.changed,
            r.description@ == self.text(),
    {
        match self {
            Error::InvalidCommandError => error(false, String::from_str("invalid command")),
            Error::CommandError => error(false, String::from_str("command error")),
        }
    }
}

/// What a command left behind when it ended: its exit code, if it ended by
/// itself, and what it wrote to its two streams.
#[derive(Debug)]
pub struct Finished {
    pub code: Option<i32>,
    pub stdout: Vec<u8>,
    pub stderr: Vec<u8>,
}

/// What the module reports of a command that ran.
#[derive(Debug)]
pub struct Output {
    pub exit_status: i32,
    pub stdout: String,
    pub stderr: String,
    pub stdout_lines: Vec<String>,
    pub stderr_lines: Vec<String>,
}

impl Default for Output {
    fn default() -> (r: Self)
        ensures
            r.exit_status == 0,
            r.stdout@.len() == 0,
            r.stderr@.len() == 0,
            r.stdout_lines@.len() == 0,
            r.stderr_lines@.len() == 0,
    {
        Output {
            exit_status: 0,
            stdout: String::new(),
            stderr: String::new(),
            stdout_lines: Vec::new(),
            stderr_lines: Vec::new(),
        }
    }
}

/// The report of a command as content: an object with one entry per field.
pub open spec fn report(
    exit_status: int,
    stdout: Seq<char>,
    stderr: Seq<char>,
    stdout_lines: Seq<Seq<char>>,
    stderr_lines: Seq<Seq<char>>,
) -> Json {
    Json::Object(
        seq![
            ("exit_status"@, Json::Number(Number::of_int(exit_status))),
            ("stdout"@, Json::String(stdout)),
            ("stderr"@, Json::String(stderr)),
            ("stdout_lines"@, texts_json(stdout_lines)),
            ("stderr_lines"@, texts_json(stderr_lines)),
        ],
    )
}

impl Output {
    /// What this report converts to.
    pub open spec fn content(&self) -> Json {
        report(
            self.exit_status as int,
            self.stdout@,
            self.stderr@,
            strings_view(self.stdout_lines),
            strings_view(self.stderr_lines),
        )
    }
}

impl crate::ferro::Output for Output {
    open spec fn converts(&self, r: Result<Value, crate::ferro::Error>) -> bool {
        r matches Ok(value) && value@ == self.content()
    }

    fn to_value(&self) -> (r: Result<Value, crate::ferro::Error>) {
        let mut entries: Vec<(String, Value)> = Vec::new();
        entries.push(
            (
                String::from_str("exit_status"),
                Value::Number(Number::from_i64(self.exit_status as i64)),
            ),
        );
        entries.push((String::from_str("stdout"), Value::String(self.stdout.clone())));
        entries.push((String::from_str("stderr"), Value::String(self.stderr.clone())));
        entries.push((String::from_str("stdout_lines"), Value::from_texts(&self.stdout_lines)));
        entries.push((String::from_str("stderr_lines"), Value::from_texts(&self.stderr_lines)));
        proof {
            lemma_object_view(entries);
            assert(strings_view(self.stdout_lines) =~= Seq::new(
                self.stdout_lines.len() as nat,
                |i: int| self.stdout_lines[i]@,
            ));
            assert(strings_view(self.stderr_lines) =~= Seq::new(
                self.stderr_lines.len() as nat,
                |i: int| self.stderr_lines[i]@,
            ));
            assert(entries_view(entries) =~= self.content()->Object_0);
        }
        Ok(Value::Object(entries))
    }
}

/// A command to run: the program, its arguments, and two paths that say when
/// the command is worth running at all. Each is worked out when the task runs.
pub struct Command {
    pub command: Lazy,
    pub args: Vec<Lazy>,
    pub creates: Lazy,
    pub removes: Lazy,
}

impl Default for Command {
    fn default() -> (r: Self)
        ensures
            r.command matches Lazy::Literal(s) && s@.len() == 0,
            r.args@.len() == 0,
            r.creates matches Lazy::Literal(s) && s@.len() == 0,
            r.removes matches Lazy::Literal(s) && s@.len() == 0,
    {
        Command {
            command: Lazy::Literal(String::new()),
            args: Vec::new(),
            creates: Lazy::Literal(String::new()),
            removes: Lazy::Literal(String::new()),
        }
    }
}

/// `FromUtf8Error` of std: the failure to read bytes as UTF-8. Nothing is
/// known of what is in it.
#[verifier::external_type_specification]
#[verifier::external_body]
pub struct ExFromUtf8Error(std::string::FromUtf8Error);

/// `String::from_utf8` of std: the text that `bytes` encode. It is taken on
/// trust, from the documentation of std, that the call succeeds exactly where
/// the bytes are well-formed UTF-8, and that the text is then what they
/// decode to.
#[verifier::external_body]
fn text_of(bytes: Vec<u8>) -> (r: Result<String, std::string::FromUtf8Error>)
    ensures
        r is Ok <==> valid_utf8(bytes@),
        r matches Ok(s) ==> s@ == decode_utf8(bytes@),
{
    String::from_utf8(bytes)
}

/// `to_string` of std on the failure to read bytes as UTF-8: the failure in
/// words. Nothing is claimed of the words.
#[verifier::external_body]
fn in_words(e: &std::string::FromUtf8Error) -> (r: String) {
    e.to_string()
}

/// Whether a command that left this exit code ended well.
pub open spec fn ended_well(code: Option<i32>) -> bool {
    code == Some(0i32)
}

/// The exit code to report: the command's own, or -1 where it has none.
pub open spec fn reported_code(code: Option<i32>) -> int {
    match code {
        Some(c) => c as int,
        None => -1,
    }
}

/// What the module's result is for a command that ended as `ended` says.
pub open spec fn outcome_of(ended: Result<Finished, String>, r: Result<Response, crate::ferro::Error>) -> bool {
    match ended {
        Err(reason) => r matches Err(e) && e.changed && e.description == reason,
        Ok(f) => if !valid_utf8(f.stdout@) || !valid_utf8(f.stderr@) {
            r matches Err(e) && e.changed
        } else if ended_well(f.code) {
            r matches Ok(resp) && resp.changed && gives(
                resp.output,
                report(
                    reported_code(f.code),
                    decode_utf8(f.stdout@),
                    decode_utf8(f.stderr@),
                    lines(decode_utf8(f.stdout@)),
                    lines(decode_utf8(f.stderr@)),
                ),
            )
        } else {
            r matches Err(e) && e.changed && e.description@ == decode_utf8(f.stderr@)
        },
    }
}

impl Command {
    /// The module's name.
    pub fn name(&self) -> (r: String)
        ensures
            r@ == "command"@,
    {
        String::from_str("command")
    }

    /// The program and the arguments to run, worked out against `context`.
    pub fn invocation(&self, context: &Context) -> (r: (String, Vec<String>))
        ensures
            r.0@ == eval(self.command, context.vars_model(), context.state_model()),
            strings_view(r.1) == eval_all(self.args, context.vars_model(), context.state_model()),
    {
        let args = resolve_all(&self.args, context);
        let program = self.command.resolve(context);
        (program, args)
    }

    /// The module's result for a command that ended as `ended` says: `Err`
    /// with the reason where it could not be run. Whatever comes of it, the
    /// command may have altered something. A command that ended well gives its
    /// report; one that did not gives a failure with what it wrote to its
    /// error stream; output that is no text gives a failure too.
    pub fn outcome(ended: Result<Finished, String>) -> (r: Result<Response, crate::ferro::Error>)
        ensures
            outcome_of(ended, r),
    {
        match ended {
            Err(reason) => Err(error(true, reason)),
            Ok(f) => {
                let stdout = match text_of(f.stdout) {
                    Ok(s) => s,
                    Err(e) => {
                        return Err(error(true, in_words(&e)));
                    },
                };
                let stderr = match text_of(f.stderr) {
                    Ok(s) => s,
                    Err(e) => {
                        return Err(error(true, in_words(&e)));
                    },
                };
                let exit_status: i32 = match f.code {
                    Some(c) => c,
                    None => -1,
                };
                let well = match f.code {
                    Some(c) => c == 0,
                    None => false,
                };
                if well {
                    let output = Output {
                        exit_status: exit_status,
                        stdout_lines: split_lines(stdout.as_str()),
                        stderr_lines: split_lines(stderr.as_str()),
                        stdout: stdout,
                        stderr: stderr,
                    };
                    Ok(Response { changed: true, output: Some(Box::new(output)) })
                } else {
                    Err(error(true, stderr))
                }
            },
        }
    }

    /// Undoing a command: there is nothing to undo, and nothing is altered.
    pub fn destroy(&self) -> (r: Result<Response, crate::ferro::Error>)
        ensures
            r matches Ok(resp) && !resp.changed && resp.output is None,
    {
        Ok(Response { changed: false, output: None })
    }
}

} // verus!
