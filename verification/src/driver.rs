//! The decisions of a conversion run: which input format applies, and in
//! which order the input is opened, read, converted and written.
//!
//! The run is a state machine. Its caller performs each action that `run`
//! asks for (opening files and streams, reading and writing bytes) and
//! reports the outcome back as the next event.

use vstd::prelude::*;
use vstd::string::*;
use crate::cli::{Cli, Format};
use crate::error::TransforError;
use crate::text::text_equal;
use crate::formats::{WriteError, is_read_of, is_write_of, read_data, write_data};
use crate::json::JsonValue;

verus! {

/// The extension `json`.
pub open spec fn json_name() -> Seq<char> {
    seq!['j', 's', 'o', 'n']
}

/// The extension `toml`.
pub open spec fn toml_name() -> Seq<char> {
    seq!['t', 'o', 'm', 'l']
}

/// The extension `csv`.
pub open spec fn csv_name() -> Seq<char> {
    seq!['c', 's', 'v']
}

/// The name of the input when it is standard input.
pub open spec fn stdin_name() -> Seq<char> {
    seq!['s', 't', 'd', 'i', 'n']
}

/// The extension that names a format.
pub open spec fn format_name(f: Format) -> Seq<char> {
    match f {
        Format::Json => json_name(),
        Format::Toml => toml_name(),
        Format::Csv => csv_name(),
    }
}

/// `path` holds a `.` directly followed by `e`.
pub open spec fn has_dot_segment(path: Seq<char>, e: Seq<char>) -> bool {
    exists|i: int|
        0 <= i && i + 1 + e.len() <= path.len() && path[i] == '.' && #[trigger] path.subrange(i + 1, i + 1 + e.len()) == e
}

/// `path` is read alike on every platform: it holds no `\` and no `:`
/// (separators and prefixes on some platforms) and does not start with `//`
/// (a network prefix on some platforms).
pub open spec fn portable(path: Seq<char>) -> bool {
    &&& !path.contains('\\')
    &&& !path.contains(':')
    &&& !(path.len() > 1 && path[0] == '/' && path[1] == '/')
}

/// The text of `s` after its last `c` (all of `s` where it holds none).
pub open spec fn after_last(s: Seq<char>, c: char) -> Seq<char>
    decreases s.len(),
{
    if s.len() == 0 {
        s
    } else if s.last() == c {
        Seq::empty()
    } else {
        after_last(s.drop_last(), c).push(s.last())
    }
}

/// `path` without its trailing `/` separators and trailing `.` components.
pub open spec fn trim_end(path: Seq<char>) -> Seq<char>
    decreases path.len(),
{
    if path.len() >= 1 && path.last() == '/' {
        trim_end(path.drop_last())
    } else if path.len() >= 2 && path.last() == '.' && path[path.len() - 2] == '/' {
        trim_end(path.subrange(0, path.len() - 2))
    } else {
        path
    }
}

/// The file name of a portable path, as `std::path::Path::file_name`
/// documents it: its final component, where that is neither `.` nor `..`.
pub open spec fn file_name_of(path: Seq<char>) -> Option<Seq<char>> {
    let name = after_last(trim_end(path), '/');
    if name.len() == 0 || name == seq!['.'] || name == seq!['.', '.'] {
        None
    } else {
        Some(name)
    }
}

/// The extension of a file name, as `std::path::Path::extension` documents
/// it: the text after its last `.`, where that `.` is not its first
/// character.
pub open spec fn extension_of(name: Seq<char>) -> Option<Seq<char>> {
    let e = after_last(name, '.');
    if name.contains('.') && e.len() + 1 < name.len() {
        Some(e)
    } else {
        None
    }
}

/// The extension of a portable path.
pub open spec fn path_extension_of(path: Seq<char>) -> Option<Seq<char>> {
    match file_name_of(path) {
        Some(name) => extension_of(name),
        None => None,
    }
}

/// The text of an optional string.
pub open spec fn opt_text(s: Option<String>) -> Option<Seq<char>> {
    match s {
        Some(t) => Some(t@),
        None => None,
    }
}

/// `c` separates components, or ends a prefix, of a path on some platform:
/// `/`, `\` or `:`.
pub open spec fn is_path_mark(c: char) -> bool {
    c == '/' || c == '\\' || c == ':'
}

/// `path` ends in `.` and then `e`, a text holding no `.` and no path mark,
/// where the final component has other text before that `.` (the character
/// before it is no path mark), and `path` does not start with two
/// separators (a network or device prefix on some platforms). On every
/// platform the extension of such a path is `e`.
pub open spec fn ends_in_extension(path: Seq<char>, e: Seq<char>) -> bool {
    let dot = path.len() - e.len() - 1;
    &&& e.len() > 0
    &&& !e.contains('.') && !e.contains('/') && !e.contains('\\') && !e.contains(':')
    &&& dot >= 1
    &&& path[dot] == '.'
    &&& path.subrange(dot + 1, path.len() as int) == e
    &&& !is_path_mark(path[dot - 1])
    &&& !(path.len() >= 2 && (path[0] == '/' || path[0] == '\\') && (path[1] == '/' || path[1] == '\\'))
}

/// The text after a `.` that ends with the path, once that `.` is followed
/// by no other: the last `.` of a path that ends in `.` and `e` is followed
/// by `e`.
pub proof fn lemma_after_last_dot(path: Seq<char>, e: Seq<char>)
    requires
        ends_in_extension(path, e),
    ensures
        after_last(path, '.') == e,
    decreases e.len(),
{
    let dot = path.len() - e.len() - 1;
    if e.len() == 1 {
        let q = path.drop_last();
        assert(q.last() == '.');
        assert(after_last(q, '.') == Seq::<char>::empty());
        assert(path.last() == e[0]);
        assert(e.contains(e[0]));
        assert(after_last(path, '.') =~= e);
    } else {
        let q = path.drop_last();
        let e1 = e.drop_last();
        assert(path.last() == e.last()) by {
            assert(path.subrange(dot + 1, path.len() as int)[e.len() - 1] == e[e.len() - 1]);
        }
        assert(e.contains(e.last()));
        assert(q.subrange(dot + 1, q.len() as int) =~= e1);
        assert forall|c: char| e1.contains(c) implies e.contains(c) by {
            let j = choose|j: int| 0 <= j < e1.len() && e1[j] == c;
            assert(e[j] == c);
        }
        assert(q[dot] == '.' && q[dot - 1] == path[dot - 1]);
        assert(ends_in_extension(q, e1));
        lemma_after_last_dot(q, e1);
        assert(after_last(path, '.') =~= e);
    }
}

/// The extension of a path, as `std::path::Path::extension` finds it, read as
/// UTF-8 (`OsStr::to_str`).
///
/// The contract claims, on every platform, that the extension is the text
/// after a `.` of the path and holds no `.` itself; for a portable path,
/// that it is the one that the documentation of `Path::file_name` and
/// `Path::extension` describes; and for a path that ends in `.` and a text
/// `e` as `ends_in_extension` says, that it is `e` (the file name is then
/// the text after the last path mark or longer, and its last `.` is not its
/// first character). What it is for other paths depends on the platform's
/// path syntax and is left unsaid.
#[verifier::external_body]
fn path_extension(path: &str) -> (ext: Option<String>)
    ensures
        ext matches Some(e) ==> has_dot_segment(path@, e@) && !e@.contains('.'),
        portable(path@) ==> opt_text(ext) == path_extension_of(path@),
        ends_in_extension(path@, after_last(path@, '.')) ==> opt_text(ext) == Some(after_last(path@, '.')),
{
    std::path::Path::new(path).extension().and_then(|s| s.to_str()).map(String::from)
}

/// The format that a file extension names: `json`, `toml` or `csv`.
pub fn format_from_extension(ext: Option<&str>) -> (f: Option<Format>)
    ensures
        forall|g: Format| f == Some(g) <==> (ext matches Some(e) && e@ == #[trigger] format_name(g)),
        f is None <==> !(ext matches Some(e) && (e@ == json_name() || e@ == toml_name() || e@ == csv_name())),
{
    proof {
        reveal_strlit("json");
        reveal_strlit("toml");
        reveal_strlit("csv");
        assert("json"@ =~= json_name());
        assert("toml"@ =~= toml_name());
        assert("csv"@ =~= csv_name());
        assert(json_name() != toml_name() && json_name() != csv_name() && toml_name() != csv_name()) by {
            assert(json_name()[0] != toml_name()[0]);
            assert(json_name().len() != csv_name().len());
            assert(toml_name().len() != csv_name().len());
        }
    }
    match ext {
        Some(e) => {
            if text_equal(e, "json") {
                Some(Format::Json)
            } else if text_equal(e, "toml") {
                Some(Format::Toml)
            } else if text_equal(e, "csv") {
                Some(Format::Csv)
            } else {
                None
            }
        },
        None => None,
    }
}


/// The extension `e` names a format.
pub open spec fn names_format(e: Option<Seq<char>>) -> bool {
    e matches Some(t) && (t == json_name() || t == toml_name() || t == csv_name())
}

/// `r` is the outcome of guessing the input format of `input` (`None` for
/// standard input) where the format given is `format`: the format given; or
/// else the format that the extension of the input file names; or else the
/// failure `UnknownInputFormat` with the name of the input. For a path that
/// is not portable, which extension the platform finds is left open.
pub open spec fn is_guess(input: Option<Seq<char>>, format: Option<Format>, r: Result<Format, TransforError>) -> bool {
    match format {
        Some(f) => r matches Ok(g) && g == f,
        None => match input {
            None => r matches Err(TransforError::UnknownInputFormat(m)) && m@ == stdin_name(),
            Some(p) => match r {
                Ok(g) => has_dot_segment(p, format_name(g))
                    && (portable(p) ==> path_extension_of(p) == Some(format_name(g)))
                    && (ends_in_extension(p, after_last(p, '.')) ==> after_last(p, '.') == format_name(g)),
                Err(TransforError::UnknownInputFormat(m)) => m@ == p
                    && (portable(p) ==> !names_format(path_extension_of(p)))
                    && (ends_in_extension(p, after_last(p, '.')) ==> !names_format(Some(after_last(p, '.')))),
                Err(_) => false,
            },
        },
    }
}

/// For a portable path with no format given, the guess depends on the
/// path's text alone: two guesses for the same path agree.
pub proof fn law_guess_depends_on_the_path(p: Seq<char>, r1: Result<Format, TransforError>, r2: Result<Format, TransforError>)
    requires
        portable(p),
        is_guess(Some(p), None, r1),
        is_guess(Some(p), None, r2),
    ensures
        r1 is Ok <==> r2 is Ok,
        r1 matches Ok(f) ==> r2 == Ok::<Format, TransforError>(f),
{
    assert(json_name() != toml_name() && json_name() != csv_name() && toml_name() != csv_name()) by {
        assert(json_name()[0] != toml_name()[0]);
        assert(json_name().len() != csv_name().len());
        assert(toml_name().len() != csv_name().len());
    }
}

/// A format given in the options is taken as it is, whatever the input.
pub proof fn law_given_format_wins(input: Option<Seq<char>>, f: Format, r: Result<Format, TransforError>)
    requires
        is_guess(input, Some(f), r),
    ensures
        r == Ok::<Format, TransforError>(f),
{
}

/// Standard input without a given format is refused, named `stdin`.
pub proof fn law_stdin_needs_a_format(r: Result<Format, TransforError>)
    requires
        is_guess(None, None, r),
    ensures
        r matches Err(TransforError::UnknownInputFormat(m)) && m@ == seq!['s', 't', 'd', 'i', 'n'],
{
}

/// A path that ends in `.json`, `.toml` or `.csv`, after a final component
/// with other text before that `.`, is guessed to hold that format when no
/// format is given, whatever `:` or `\` it holds elsewhere.
pub proof fn law_guess_by_extension(p: Seq<char>, f: Format, r: Result<Format, TransforError>)
    requires
        ends_in_extension(p, format_name(f)),
        is_guess(Some(p), None, r),
    ensures
        r == Ok::<Format, TransforError>(f),
{
    lemma_after_last_dot(p, format_name(f));
    assert(json_name() != toml_name() && json_name() != csv_name() && toml_name() != csv_name()) by {
        assert(json_name()[0] != toml_name()[0]);
        assert(json_name().len() != csv_name().len());
        assert(toml_name().len() != csv_name().len());
    }
}

/// Decides the input format: the one given, or else the one named by the
/// extension of the input file; standard input without a given format, and a
/// file whose extension names no format, are refused.
pub fn guess_input_format(input: Option<&str>, format: Option<Format>) -> (r: Result<Format, TransforError>)
    ensures
        is_guess(
            match input {
                Some(p) => Some(p@),
                None => None,
            },
            format,
            r,
        ),
        format is None && (input matches Some(p) && !p@.contains('.')) ==> r is Err,
{
    if let Some(f) = format {
        return Ok(f);
    }
    let path = match input {
        Some(p) => p,
        None => {
            let name = String::from_str("stdin");
            proof {
                reveal_strlit("stdin");
                assert(name@ =~= stdin_name());
            }
            return Err(TransforError::UnknownInputFormat(name));
        },
    };
    let ext = path_extension(path);
    let found = match &ext {
        Some(e) => format_from_extension(Some(e.as_str())),
        None => format_from_extension(None),
    };
    match found {
        Some(f) => {
            proof {
                if !path@.contains('.') {
                    let e = ext->0;
                    let i = choose|i: int|
                        0 <= i && i + 1 + e@.len() <= path@.len() && path@[i] == '.' && #[trigger] path@.subrange(i + 1, i + 1 + e@.len()) == e@;
                    assert(path@[i] == '.');
                }
            }
            Ok(f)
        },
        None => Err(TransforError::UnknownInputFormat(String::from_str(path))),
    }
}

/// The stages of a conversion run.
#[derive(Clone, Copy, Debug, PartialEq, Eq, Structural)]
pub enum Stage {
    /// Nothing has been done yet.
    Start,
    /// The input is being opened.
    OpeningInput,
    /// The output is being opened.
    OpeningOutput,
    /// The whole input is being read.
    Reading,
    /// The converted document is being written to the output.
    Writing,
    /// What went to the output before a failure is being written; the run then
    /// ends with the failure.
    Failing,
    /// The run has ended.
    Done,
}

/// The outcome of an action, reported back to the run.
#[derive(Debug)]
pub enum Event {
    /// The run begins with these options.
    Begin(Cli),
    /// The input or the output was opened.
    Opened,
    /// The whole input was read.
    Read(String),
    /// The output was written.
    Written,
    /// The action failed.
    Failed(TransforError),
}

/// What the run asks its caller to do next.
#[derive(Debug)]
pub enum Action {
    /// Open the input file, or standard input.
    OpenInput,
    /// Create the output file, or take standard output.
    OpenOutput,
    /// Read the whole input as text.
    ReadInput,
    /// Write these bytes to the output, and flush it where `flush` is set.
    Write { bytes: Vec<u8>, flush: bool },
    /// End the run with this outcome.
    Exit(Result<(), TransforError>),
    /// The event did not fit the stage; nothing is to be done.
    Idle,
}

/// The state of a conversion run.
#[derive(Debug)]
pub struct Run {
    stage: Stage,
    input_format: Format,
    output_format: Format,
    failure: Option<TransforError>,
}

/// What a `Run` holds.
pub struct RunView {
    pub stage: Stage,
    pub input_format: Format,
    pub output_format: Format,
    /// The failure that ends the run once the output is written.
    pub failure: Option<TransforError>,
}

impl View for Run {
    type V = RunView;

    closed spec fn view(&self) -> RunView {
        RunView {
            stage: self.stage,
            input_format: self.input_format,
            output_format: self.output_format,
            failure: self.failure,
        }
    }
}

/// The step after the document has been written into bytes (`Ok`) or has
/// failed to be (`Err`), for output in `out`: the bytes are written, and
/// flushed at once for CSV output that is not empty; a failure ends the run, after the bytes that
/// went to the output before it, if any.
pub open spec fn is_write_step(w: Result<Vec<u8>, WriteError>, out: Format, next: RunView, action: Action) -> bool {
    match w {
        Ok(bytes) => next.stage == Stage::Writing
            && action == (Action::Write { bytes, flush: out == Format::Csv && bytes@.len() > 0 }),
        Err(e) => if e.flushed@.len() > 0 {
            &&& next.stage == Stage::Failing
            &&& next.failure == Some(e.error)
            &&& action == (Action::Write { bytes: e.flushed, flush: true })
        } else {
            next.stage == Stage::Done && action == Action::Exit(Err(e.error))
        },
    }
}

/// The input file named by the options, if any.
pub open spec fn input_name(cli: Cli) -> Option<Seq<char>> {
    match cli.input_file {
        Some(p) => Some(p@),
        None => None,
    }
}

/// The event `e` is an outcome that the run waits for at its state `s`.
pub open spec fn fits(s: RunView, e: Event) -> bool {
    ||| s.stage == Stage::Start && e is Begin
    ||| (s.stage == Stage::OpeningInput || s.stage == Stage::OpeningOutput) && e is Opened
    ||| s.stage == Stage::Reading && e is Read
    ||| (s.stage == Stage::Writing || s.stage == Stage::Failing) && e is Written
    ||| s.stage != Stage::Start && s.stage != Stage::Done && e is Failed
}

/// The run ends with `outcome`.
pub open spec fn ends_with(next: RunView, action: Action, outcome: Result<(), TransforError>) -> bool {
    next.stage == Stage::Done && action == Action::Exit(outcome)
}

impl Run {
    #[verifier::type_invariant]
    spec fn failure_kept(self) -> bool {
        self.stage == Stage::Failing ==> self.failure is Some
    }

    /// A run that has not begun.
    pub fn new() -> (r: Run)
        ensures
            r@.stage == Stage::Start,
    {
        Run { stage: Stage::Start, input_format: Format::Json, output_format: Format::Json, failure: None }
    }

    /// The stage the run is at.
    pub fn stage(&self) -> (s: Stage)
        ensures
            s == self@.stage,
    {
        self.stage
    }
}

/// One step of a run: from the state `old` and the event `event` to the
/// state `next` and the action `action`.
///
/// The run begins by deciding the input format, then opens the input and
/// the output, reads the whole input, decodes it into a document, writes the
/// document into bytes in the output format, writes those bytes and ends.
/// Any failure ends the run with that failure; an event that does not fit
/// the stage changes nothing.
pub open spec fn is_step(old: RunView, event: Event, next: RunView, action: Action) -> bool {
    &&& old.stage == Stage::Start ==> (event matches Event::Begin(cli) ==> exists|g: Result<Format, TransforError>| {
        &&& #[trigger] is_guess(input_name(cli), cli.input_format, g)
        &&& (g matches Ok(f) ==> next.stage == Stage::OpeningInput && action == Action::OpenInput
            && next.input_format == f && next.output_format == cli.output_format)
        &&& (g matches Err(e) ==> ends_with(next, action, Err(e)))
    })
    &&& old.stage == Stage::OpeningInput ==> (event is Opened ==> next.stage == Stage::OpeningOutput
        && action == Action::OpenOutput)
    &&& old.stage == Stage::OpeningOutput ==> (event is Opened ==> next.stage == Stage::Reading
        && action == Action::ReadInput)
    &&& old.stage == Stage::Reading ==> (event matches Event::Read(content) ==>
        exists|d: Result<JsonValue, TransforError>| {
            &&& #[trigger] is_read_of(d, content@, old.input_format)
            &&& (d matches Err(e) ==> ends_with(next, action, Err(e)))
            &&& (d matches Ok(v) ==> exists|w: Result<Vec<u8>, WriteError>|
                #[trigger] is_write_of(w, v, old.output_format) && is_write_step(w, old.output_format, next, action))
        })
    &&& old.stage == Stage::Writing ==> (event is Written ==> ends_with(next, action, Ok(())))
    &&& old.stage == Stage::Failing ==> ((event is Written || event is Failed) ==> (old.failure matches Some(e)
        && ends_with(next, action, Err(e))))
    &&& (old.stage != Stage::Start && old.stage != Stage::Failing && old.stage != Stage::Done)
        ==> (event matches Event::Failed(e) ==> ends_with(next, action, Err(e)))
    &&& old.stage != Stage::Start ==> (next.input_format == old.input_format && next.output_format == old.output_format)
    &&& (action is Exit <==> next.stage == Stage::Done && old.stage != Stage::Done)
    &&& (action is Write ==> old.stage == Stage::Reading)
    &&& (action is Idle <==> !fits(old, event))
    &&& (!fits(old, event) ==> next == old)
}

/// Takes a conversion run one step further: from its state and the outcome of
/// the last action to its next state and the next action (see `is_step`).
pub fn run(state: Run, event: Event) -> (r: (Run, Action))
    ensures
        is_step(state@, event, r.0@, r.1),
{
    proof {
        use_type_invariant(&state);
    }
    let Run { stage, input_format, output_format, failure } = state;
    let done = Run { stage: Stage::Done, input_format, output_format, failure: None };
    match (stage, event) {
        (Stage::Start, Event::Begin(cli)) => {
            let g = match &cli.input_file {
                Some(p) => guess_input_format(Some(p.as_str()), cli.input_format),
                None => guess_input_format(None, cli.input_format),
            };
            match g {
                Ok(f) => (
                    Run { stage: Stage::OpeningInput, input_format: f, output_format: cli.output_format, failure: None },
                    Action::OpenInput,
                ),
                Err(e) => (done, Action::Exit(Err(e))),
            }
        },
        (Stage::OpeningInput, Event::Opened) => (Run { stage: Stage::OpeningOutput, ..done }, Action::OpenOutput),
        (Stage::OpeningOutput, Event::Opened) => (Run { stage: Stage::Reading, ..done }, Action::ReadInput),
        (Stage::Reading, Event::Read(content)) => match read_data(content, input_format) {
            Err(e) => (done, Action::Exit(Err(e))),
            Ok(v) => match write_data(v, output_format) {
                Ok(bytes) => {
                    let flush = match output_format {
                        Format::Csv => bytes.len() > 0,
                        _ => false,
                    };
                    (Run { stage: Stage::Writing, ..done }, Action::Write { bytes, flush })
                },
                Err(e) => {
                    if e.flushed.len() > 0 {
                        (
                            Run { stage: Stage::Failing, failure: Some(e.error), ..done },
                            Action::Write { bytes: e.flushed, flush: true },
                        )
                    } else {
                        (done, Action::Exit(Err(e.error)))
                    }
                },
            },
        },
        (Stage::Writing, Event::Written) => (done, Action::Exit(Ok(()))),
        (Stage::Failing, Event::Written) | (Stage::Failing, Event::Failed(_)) => {
            let e = failure.unwrap();
            (done, Action::Exit(Err(e)))
        },
        (Stage::OpeningInput, Event::Failed(e)) | (Stage::OpeningOutput, Event::Failed(e))
        | (Stage::Reading, Event::Failed(e)) | (Stage::Writing, Event::Failed(e)) => (done, Action::Exit(Err(e))),
        (stage, _) => (Run { stage, input_format, output_format, failure }, Action::Idle),
    }
}

/// A failed action ends the run with a failure: at any stage after the
/// start and before the end, with the failure reported, or at `Failing`
/// with the failure the run already had.
pub proof fn law_failed_action_fails_the_run(old: RunView, e: TransforError, next: RunView, action: Action)
    requires
        is_step(old, Event::Failed(e), next, action),
        old.stage != Stage::Start,
        old.stage != Stage::Done,
    ensures
        next.stage == Stage::Done,
        old.stage != Stage::Failing ==> action == Action::Exit(Err(e)),
        old.stage == Stage::Failing ==> (old.failure matches Some(f) && action == Action::Exit(Err(f))),
{
}

/// A run ends with success only when its output has been written: the one
/// step that ends it with `Ok(())` is the event `Written` at `Writing`.
pub proof fn law_success_only_after_writing(old: RunView, event: Event, next: RunView, action: Action)
    requires
        is_step(old, event, next, action),
        action == Action::Exit(Ok(())),
    ensures
        old.stage == Stage::Writing,
        event is Written,
{
}

/// A run that has ended stays ended: every event at `Done` changes nothing
/// and asks for nothing.
pub proof fn law_done_stays_done(old: RunView, event: Event, next: RunView, action: Action)
    requires
        is_step(old, event, next, action),
        old.stage == Stage::Done,
    ensures
        next == old,
        action is Idle,
{
}

/// A whole run whose input and output open and whose writes succeed, with
/// the input reading as `content`, ends after these five steps. It ends
/// with `Ok(())` exactly when the input format is found, `content` decodes
/// into a document and the document is written into bytes; the output then
/// receives exactly those bytes. Otherwise it ends with the first failure:
/// of the guess, of the decoding, or of the writing (after the bytes that
/// went out before it, if any).
pub proof fn law_whole_run(
    cli: Cli,
    content: String,
    s0: RunView,
    s1: RunView,
    s2: RunView,
    s3: RunView,
    s4: RunView,
    s5: RunView,
    a1: Action,
    a2: Action,
    a3: Action,
    a4: Action,
    a5: Action,
)
    requires
        s0.stage == Stage::Start,
        is_step(s0, Event::Begin(cli), s1, a1),
        is_step(s1, Event::Opened, s2, a2),
        is_step(s2, Event::Opened, s3, a3),
        is_step(s3, Event::Read(content), s4, a4),
        is_step(s4, Event::Written, s5, a5),
    ensures
        s5.stage == Stage::Done,
        a5 == Action::Exit(Ok(())) ==> exists|f: Format, v: JsonValue, b: Vec<u8>| {
            &&& #[trigger] is_guess(input_name(cli), cli.input_format, Ok(f))
            &&& #[trigger] is_read_of(Ok(v), content@, f)
            &&& #[trigger] is_write_of(Ok(b), v, cli.output_format)
            &&& a4 == (Action::Write { bytes: b, flush: cli.output_format == Format::Csv && b@.len() > 0 })
        },
        ({
            &&& forall|g: Result<Format, TransforError>| #[trigger] is_guess(input_name(cli), cli.input_format, g) ==> g is Ok
            &&& forall|f: Format, d: Result<JsonValue, TransforError>| #[trigger] is_read_of(d, content@, f) ==> d is Ok
            &&& forall|v: JsonValue, w: Result<Vec<u8>, WriteError>| #[trigger] is_write_of(w, v, cli.output_format) ==> w is Ok
        }) ==> a5 == Action::Exit(Ok(())),
        a1 matches Action::Exit(Err(e)) ==> is_guess(input_name(cli), cli.input_format, Err(e)),
        a4 matches Action::Exit(Err(e)) ==> exists|f: Format| {
            &&& #[trigger] is_guess(input_name(cli), cli.input_format, Ok(f))
            &&& (is_read_of(Err(e), content@, f) || exists|v: JsonValue, w: WriteError| {
                &&& #[trigger] is_read_of(Ok(v), content@, f)
                &&& #[trigger] is_write_of(Err(w), v, cli.output_format)
                &&& w.error == e
                &&& w.flushed@.len() == 0
            })
        },
        a5 matches Action::Exit(Err(e)) ==> exists|f: Format, v: JsonValue, w: WriteError| {
            &&& #[trigger] is_guess(input_name(cli), cli.input_format, Ok(f))
            &&& #[trigger] is_read_of(Ok(v), content@, f)
            &&& #[trigger] is_write_of(Err(w), v, cli.output_format)
            &&& w.error == e
            &&& w.flushed@.len() > 0
            &&& a4 == (Action::Write { bytes: w.flushed, flush: true })
        },
{
}

} // verus!
