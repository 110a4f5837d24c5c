//! The command line: this program's own flags are taken out, and everything
//! else is forwarded verbatim to the child.

use vstd::prelude::*;
use crate::text::OsText;

pub mod laws;

verus! {

/// What goes to standard output.
#[derive(Debug, Clone, Copy, PartialEq, Eq, Structural)]
pub enum OutputFormat {
    Text,
    StreamJson,
    Json,
}

/// The format that a name stands for.
pub open spec fn format_named(name: Seq<char>) -> Option<OutputFormat> {
    if name == "text"@ {
        Some(OutputFormat::Text)
    } else if name == "stream-json"@ {
        Some(OutputFormat::StreamJson)
    } else if name == "json"@ {
        Some(OutputFormat::Json)
    } else {
        None
    }
}

/// What `from_str` makes of a name.
pub open spec fn format_or_problem(name: Seq<char>) -> Result<OutputFormat, Problem> {
    match format_named(name) {
        Some(format) => Ok(format),
        None => Err(Problem::InvalidOutputFormat(name)),
    }
}

impl std::str::FromStr for OutputFormat {
    type Err = ParseError;

    fn from_str(s: &str) -> (format: Result<Self, ParseError>)
        ensures
            outcome(format) == format_or_problem(s@),
    {
        if crate::text::same(s, "text") {
            Ok(OutputFormat::Text)
        } else if crate::text::same(s, "stream-json") {
            Ok(OutputFormat::StreamJson)
        } else if crate::text::same(s, "json") {
            Ok(OutputFormat::Json)
        } else {
            Err(ParseError::InvalidOutputFormat(s.to_owned()))
        }
    }
}

/// Why a command line is refused.
#[derive(Debug)]
pub enum ParseError {
    MissingValue(&'static str),
    InvalidOutputFormat(String),
    InvalidPositiveInteger(&'static str, String),
}

/// A [`ParseError`] with its texts as sequences.
pub enum Problem {
    MissingValue(Seq<char>),
    InvalidOutputFormat(Seq<char>),
    InvalidPositiveInteger(Seq<char>, Seq<char>),
}

impl View for ParseError {
    type V = Problem;

    open spec fn view(&self) -> Problem {
        match self {
            ParseError::MissingValue(flag) => Problem::MissingValue(flag@),
            ParseError::InvalidOutputFormat(value) => Problem::InvalidOutputFormat(value@),
            ParseError::InvalidPositiveInteger(flag, value) => Problem::InvalidPositiveInteger(
                flag@,
                value@,
            ),
        }
    }
}

/// A result with its error by its view.
pub open spec fn outcome<T>(result: Result<T, ParseError>) -> Result<T, Problem> {
    match result {
        Ok(value) => Ok(value),
        Err(error) => Err(error@),
    }
}

/// What the `Debug` format of `str` writes: the text in double quotes, with
/// escapes.
pub uninterp spec fn debug_text(text: Seq<char>) -> Seq<char>;

/// Formats with the `Debug` format of `str`, whose result is only named here.
#[verifier::external_body]
fn quoted(text: &str) -> (quoted: String)
    ensures
        quoted@ == debug_text(text@),
{
    format!("{:?}", text)
}

impl Problem {
    /// What is said of the problem.
    pub open spec fn message(self) -> Seq<char> {
        match self {
            Problem::MissingValue(flag) => "missing value for "@ + flag,
            Problem::InvalidOutputFormat(value) => "invalid --output-format value "@ + debug_text(
                value,
            ) + "; expected one of: text, stream-json, json"@,
            Problem::InvalidPositiveInteger(flag, value) => "invalid positive integer for "@ + flag
                + ": "@ + debug_text(value),
        }
    }
}

impl ParseError {
    /// What is said of the error.
    pub fn message(&self) -> (message: String)
        ensures
            message@ == self@.message(),
    {
        match self {
            ParseError::MissingValue(flag) => {
                let mut message = "missing value for ".to_owned();
                message.append(flag);
                message
            },
            ParseError::InvalidOutputFormat(value) => {
                let value = quoted(value.as_str());
                crate::text::join3(
                    "invalid --output-format value ",
                    value.as_str(),
                    "; expected one of: text, stream-json, json",
                )
            },
            ParseError::InvalidPositiveInteger(flag, value) => {
                let mut message = crate::text::join3("invalid positive integer for ", flag, ": ");
                let value = quoted(value.as_str());
                message.append(value.as_str());
                message
            },
        }
    }
}

/// What the command line asks for.
#[derive(Debug)]
pub struct ParsedArgs {
    /// The prompt to type into the child.
    pub inject: Option<String>,
    /// The arguments that are handed on.
    pub forwarded: Vec<OsText>,
    pub output_format: OutputFormat,
    pub capabilities: bool,
    pub run_id: Option<String>,
    pub lifecycle_path: Option<OsText>,
    pub inference_seconds: Option<u64>,
    pub normal_cleanup_seconds: u64,
    pub forced_cleanup_seconds: u64,
    /// Whether one of the two cleanup spans was given rather than left to its
    /// default.
    pub cleanup_policy_supplied: bool,
}

/// [`ParsedArgs`] with its texts as sequences.
pub struct Request {
    pub inject: Option<Seq<char>>,
    pub forwarded: Seq<Seq<u8>>,
    pub output_format: OutputFormat,
    pub capabilities: bool,
    pub run_id: Option<Seq<char>>,
    pub lifecycle_path: Option<Seq<u8>>,
    pub inference_seconds: Option<u64>,
    pub normal_cleanup_seconds: u64,
    pub forced_cleanup_seconds: u64,
    pub cleanup_policy_supplied: bool,
}

impl View for ParsedArgs {
    type V = Request;

    open spec fn view(&self) -> Request {
        Request {
            inject: crate::text::text_view(self.inject),
            forwarded: crate::text::views(self.forwarded@),
            output_format: self.output_format,
            capabilities: self.capabilities,
            run_id: crate::text::text_view(self.run_id),
            lifecycle_path: crate::text::os_view(self.lifecycle_path),
            inference_seconds: self.inference_seconds,
            normal_cleanup_seconds: self.normal_cleanup_seconds,
            forced_cleanup_seconds: self.forced_cleanup_seconds,
            cleanup_policy_supplied: self.cleanup_policy_supplied,
        }
    }
}

/// What an empty command line asks for.
pub open spec fn defaults() -> Request {
    Request {
        inject: None,
        forwarded: Seq::empty(),
        output_format: OutputFormat::Text,
        capabilities: false,
        run_id: None,
        lifecycle_path: None,
        inference_seconds: None,
        normal_cleanup_seconds: 10,
        forced_cleanup_seconds: 5,
        cleanup_policy_supplied: false,
    }
}

/// What an argument is, by its own text alone.
pub enum Flag<T> {
    Prompt,
    PromptIs(T),
    Format,
    FormatIs(T),
    Capabilities,
    RunId,
    Lifecycle,
    InferenceSeconds,
    NormalCleanupSeconds,
    ForcedCleanupSeconds,
    /// Not one of this program's own flags.
    Foreign,
}

impl<'a> Flag<&'a str> {
    pub open spec fn view(self) -> Flag<Seq<char>> {
        match self {
            Flag::Prompt => Flag::Prompt,
            Flag::PromptIs(rest) => Flag::PromptIs(rest@),
            Flag::Format => Flag::Format,
            Flag::FormatIs(rest) => Flag::FormatIs(rest@),
            Flag::Capabilities => Flag::Capabilities,
            Flag::RunId => Flag::RunId,
            Flag::Lifecycle => Flag::Lifecycle,
            Flag::InferenceSeconds => Flag::InferenceSeconds,
            Flag::NormalCleanupSeconds => Flag::NormalCleanupSeconds,
            Flag::ForcedCleanupSeconds => Flag::ForcedCleanupSeconds,
            Flag::Foreign => Flag::Foreign,
        }
    }
}

/// What an argument with this text is.
pub open spec fn flag_in(text: Seq<char>) -> Flag<Seq<char>> {
    if text == "-p"@ {
        Flag::Prompt
    } else if crate::text::behind(text, "-p="@) is Some {
        Flag::PromptIs(crate::text::behind(text, "-p="@)->0)
    } else if text == "--output-format"@ {
        Flag::Format
    } else if crate::text::behind(text, "--output-format="@) is Some {
        Flag::FormatIs(crate::text::behind(text, "--output-format="@)->0)
    } else if text == "--second-opinion-capabilities"@ {
        Flag::Capabilities
    } else if text == "--second-opinion-run-id"@ {
        Flag::RunId
    } else if text == "--second-opinion-lifecycle"@ {
        Flag::Lifecycle
    } else if text == "--second-opinion-inference-seconds"@ {
        Flag::InferenceSeconds
    } else if text == "--second-opinion-normal-cleanup-seconds"@ {
        Flag::NormalCleanupSeconds
    } else if text == "--second-opinion-forced-cleanup-seconds"@ {
        Flag::ForcedCleanupSeconds
    } else {
        Flag::Foreign
    }
}

/// What an argument is. One that is not UTF-8 is never a flag of this program.
pub open spec fn flag_of(arg: Seq<u8>) -> Flag<Seq<char>> {
    match crate::text::utf8_text(arg) {
        Some(text) => flag_in(text),
        None => Flag::Foreign,
    }
}

fn classify<'a>(arg: &'a OsText) -> (flag: Flag<&'a str>)
    ensures
        flag.view() == flag_of(arg@),
{
    let text: &'a str = match arg.to_str() {
        Some(text) => text,
        None => {
            return Flag::Foreign;
        },
    };
    if crate::text::same(text, "-p") {
        return Flag::Prompt;
    }
    if let Some(rest) = crate::text::strip_prefix(text, "-p=") {
        return Flag::PromptIs(rest);
    }
    if crate::text::same(text, "--output-format") {
        return Flag::Format;
    }
    if let Some(rest) = crate::text::strip_prefix(text, "--output-format=") {
        return Flag::FormatIs(rest);
    }
    if crate::text::same(text, "--second-opinion-capabilities") {
        Flag::Capabilities
    } else if crate::text::same(text, "--second-opinion-run-id") {
        Flag::RunId
    } else if crate::text::same(text, "--second-opinion-lifecycle") {
        Flag::Lifecycle
    } else if crate::text::same(text, "--second-opinion-inference-seconds") {
        Flag::InferenceSeconds
    } else if crate::text::same(text, "--second-opinion-normal-cleanup-seconds") {
        Flag::NormalCleanupSeconds
    } else if crate::text::same(text, "--second-opinion-forced-cleanup-seconds") {
        Flag::ForcedCleanupSeconds
    } else {
        Flag::Foreign
    }
}

/// Whether the argument behind this one is its value.
pub open spec fn takes_value(flag: Flag<Seq<char>>) -> bool {
    match flag {
        Flag::Prompt => true,
        Flag::Format => true,
        Flag::RunId => true,
        Flag::Lifecycle => true,
        Flag::InferenceSeconds => true,
        Flag::NormalCleanupSeconds => true,
        Flag::ForcedCleanupSeconds => true,
        _ => false,
    }
}

/// The number in a value that has to be a positive integer.
pub open spec fn positive(value: Seq<u8>, flag: Seq<char>) -> Result<u64, Problem> {
    let text = crate::text::lossy_text(value);
    match crate::text::decimal(text) {
        Some(n) => if n > 0 {
            Ok(n)
        } else {
            Err(Problem::InvalidPositiveInteger(flag, text))
        },
        None => Err(Problem::InvalidPositiveInteger(flag, text)),
    }
}

pub fn positive_integer(value: &OsText, flag: &'static str) -> (number: Result<u64, ParseError>)
    ensures
        outcome(number) == positive(value@, flag@),
{
    let text = value.to_string_lossy();
    match crate::text::parse_u64(text.as_str()) {
        Some(n) => if n > 0 {
            Ok(n)
        } else {
            Err(ParseError::InvalidPositiveInteger(flag, text))
        },
        None => Err(ParseError::InvalidPositiveInteger(flag, text)),
    }
}

/// What a flag that stands alone makes of the request so far. `arg` is the
/// argument itself.
pub open spec fn alone(so_far: Request, flag: Flag<Seq<char>>, arg: Seq<u8>) -> Result<
    Request,
    Problem,
> {
    match flag {
        Flag::PromptIs(rest) => Ok(Request { inject: Some(rest), ..so_far }),
        Flag::FormatIs(rest) => match format_or_problem(rest) {
            Ok(format) => Ok(Request { output_format: format, ..so_far }),
            Err(problem) => Err(problem),
        },
        Flag::Capabilities => Ok(Request { capabilities: true, ..so_far }),
        _ => Ok(Request { forwarded: so_far.forwarded.push(arg), ..so_far }),
    }
}

/// What a flag makes of the request so far, with the value behind it.
pub open spec fn with_value(so_far: Request, flag: Flag<Seq<char>>, value: Seq<u8>) -> Result<
    Request,
    Problem,
> {
    match flag {
        Flag::Prompt => Ok(Request { inject: Some(crate::text::lossy_text(value)), ..so_far }),
        Flag::Format => match format_or_problem(crate::text::lossy_text(value)) {
            Ok(format) => Ok(Request { output_format: format, ..so_far }),
            Err(problem) => Err(problem),
        },
        Flag::RunId => Ok(Request { run_id: Some(crate::text::lossy_text(value)), ..so_far }),
        Flag::Lifecycle => Ok(Request { lifecycle_path: Some(value), ..so_far }),
        Flag::InferenceSeconds => match positive(value, "--second-opinion-inference-seconds"@) {
            Ok(n) => Ok(Request { inference_seconds: Some(n), ..so_far }),
            Err(problem) => Err(problem),
        },
        Flag::NormalCleanupSeconds => match positive(
            value,
            "--second-opinion-normal-cleanup-seconds"@,
        ) {
            Ok(n) => Ok(
                Request { normal_cleanup_seconds: n, cleanup_policy_supplied: true, ..so_far },
            ),
            Err(problem) => Err(problem),
        },
        Flag::ForcedCleanupSeconds => match positive(
            value,
            "--second-opinion-forced-cleanup-seconds"@,
        ) {
            Ok(n) => Ok(
                Request { forced_cleanup_seconds: n, cleanup_policy_supplied: true, ..so_far },
            ),
            Err(problem) => Err(problem),
        },
        _ => Ok(so_far),
    }
}

/// What a flag at the very end makes of the request, where its value is
/// missing. Only the prompt flag gets away with it: it leaves no prompt.
pub open spec fn without_value(so_far: Request, flag: Flag<Seq<char>>) -> Result<Request, Problem> {
    match flag {
        Flag::Prompt => Ok(Request { inject: None, ..so_far }),
        Flag::Format => Err(Problem::MissingValue("--output-format"@)),
        Flag::RunId => Err(Problem::MissingValue("--second-opinion-run-id"@)),
        Flag::Lifecycle => Err(Problem::MissingValue("--second-opinion-lifecycle"@)),
        Flag::InferenceSeconds => Err(Problem::MissingValue("--second-opinion-inference-seconds"@)),
        Flag::NormalCleanupSeconds => Err(
            Problem::MissingValue("--second-opinion-normal-cleanup-seconds"@),
        ),
        Flag::ForcedCleanupSeconds => Err(
            Problem::MissingValue("--second-opinion-forced-cleanup-seconds"@),
        ),
        _ => Ok(so_far),
    }
}

/// How many arguments the first one of `args` uses up: itself, and its value
/// where it takes one and one is there.
pub open spec fn used(args: Seq<Seq<u8>>) -> int {
    if takes_value(flag_of(args[0])) && args.len() > 1 {
        2
    } else {
        1
    }
}

/// What the first one of `args` makes of the request so far.
pub open spec fn first_applied(args: Seq<Seq<u8>>, so_far: Request) -> Result<Request, Problem> {
    let flag = flag_of(args[0]);
    if !takes_value(flag) {
        alone(so_far, flag, args[0])
    } else if args.len() > 1 {
        with_value(so_far, flag, args[1])
    } else {
        without_value(so_far, flag)
    }
}

/// What the arguments, from left to right, make of the request so far.
pub open spec fn parsed(args: Seq<Seq<u8>>, so_far: Request) -> Result<Request, Problem>
    decreases args.len(),
{
    if args.len() == 0 {
        Ok(so_far)
    } else {
        match first_applied(args, so_far) {
            Ok(next) => parsed(args.skip(used(args)), next),
            Err(problem) => Err(problem),
        }
    }
}

/// Whether `result` and what became of the request are what `expected` says.
pub open spec fn applied(
    result: Result<(), ParseError>,
    after: Request,
    expected: Result<Request, Problem>,
) -> bool {
    match result {
        Ok(_) => expected == Ok::<Request, Problem>(after),
        Err(error) => expected == Err::<Request, Problem>(error@),
    }
}

fn apply_alone(request: &mut ParsedArgs, flag: Flag<&str>, arg: &OsText) -> (result: Result<
    (),
    ParseError,
>)
    requires
        !takes_value(flag.view()),
    ensures
        applied(result, final(request)@, alone(old(request)@, flag.view(), arg@)),
{
    match flag {
        Flag::PromptIs(rest) => {
            request.inject = Some(rest.to_owned());
        },
        Flag::FormatIs(rest) => {
            request.output_format = <OutputFormat as std::str::FromStr>::from_str(rest)?;
        },
        Flag::Capabilities => {
            request.capabilities = true;
        },
        _ => {
            let ghost before = request.forwarded@;
            request.forwarded.push(arg.clone());
            proof {
                assert(crate::text::views(request.forwarded@) =~= crate::text::views(before).push(
                    arg@,
                ));
            }
        },
    }
    Ok(())
}

fn apply_value(request: &mut ParsedArgs, flag: Flag<&str>, value: &OsText) -> (result: Result<
    (),
    ParseError,
>)
    requires
        takes_value(flag.view()),
    ensures
        applied(result, final(request)@, with_value(old(request)@, flag.view(), value@)),
{
    match flag {
        Flag::Prompt => {
            request.inject = Some(value.to_string_lossy());
        },
        Flag::Format => {
            let name = value.to_string_lossy();
            request.output_format = <OutputFormat as std::str::FromStr>::from_str(name.as_str())?;
        },
        Flag::RunId => {
            request.run_id = Some(value.to_string_lossy());
        },
        Flag::Lifecycle => {
            request.lifecycle_path = Some(value.clone());
        },
        Flag::InferenceSeconds => {
            request.inference_seconds = Some(
                positive_integer(value, "--second-opinion-inference-seconds")?,
            );
        },
        Flag::NormalCleanupSeconds => {
            request.normal_cleanup_seconds = positive_integer(
                value,
                "--second-opinion-normal-cleanup-seconds",
            )?;
            request.cleanup_policy_supplied = true;
        },
        _ => {
            request.forced_cleanup_seconds = positive_integer(
                value,
                "--second-opinion-forced-cleanup-seconds",
            )?;
            request.cleanup_policy_supplied = true;
        },
    }
    Ok(())
}

fn apply_missing(request: &mut ParsedArgs, flag: Flag<&str>) -> (result: Result<(), ParseError>)
    requires
        takes_value(flag.view()),
    ensures
        applied(result, final(request)@, without_value(old(request)@, flag.view())),
{
    let name: &'static str = match flag {
        Flag::Prompt => {
            request.inject = None;
            return Ok(());
        },
        Flag::Format => "--output-format",
        Flag::RunId => "--second-opinion-run-id",
        Flag::Lifecycle => "--second-opinion-lifecycle",
        Flag::InferenceSeconds => "--second-opinion-inference-seconds",
        Flag::NormalCleanupSeconds => "--second-opinion-normal-cleanup-seconds",
        _ => "--second-opinion-forced-cleanup-seconds",
    };
    Err(ParseError::MissingValue(name))
}

fn awaits_value(flag: &Flag<&str>) -> (awaits: bool)
    ensures
        awaits == takes_value(flag.view()),
{
    match flag {
        Flag::Prompt => true,
        Flag::Format => true,
        Flag::RunId => true,
        Flag::Lifecycle => true,
        Flag::InferenceSeconds => true,
        Flag::NormalCleanupSeconds => true,
        Flag::ForcedCleanupSeconds => true,
        _ => false,
    }
}

/// A parsed command line, or why it is refused, as sequences.
pub open spec fn parsed_view(result: Result<ParsedArgs, ParseError>) -> Result<Request, Problem> {
    match result {
        Ok(request) => Ok(request@),
        Err(error) => Err(error@),
    }
}

/// Reads the command line, without the program's own name.
pub fn parse(argv: Vec<OsText>) -> (result: Result<ParsedArgs, ParseError>)
    ensures
        parsed_view(result) == parsed(crate::text::views(argv@), defaults()),
{
    let ghost args = crate::text::views(argv@);
    let mut request = ParsedArgs {
        inject: None,
        forwarded: Vec::new(),
        output_format: OutputFormat::Text,
        capabilities: false,
        run_id: None,
        lifecycle_path: None,
        inference_seconds: None,
        normal_cleanup_seconds: 10,
        forced_cleanup_seconds: 5,
        cleanup_policy_supplied: false,
    };
    proof {
        assert(crate::text::views(request.forwarded@) =~= Seq::empty());
        assert(args.skip(0) =~= args);
    }
    let mut i: usize = 0;
    while i < argv.len()
        invariant
            i <= argv@.len(),
            args == crate::text::views(argv@),
            parsed(args.skip(i as int), request@) == parsed(args, defaults()),
        decreases argv@.len() - i,
    {
        let ghost rest = args.skip(i as int);
        let ghost before = request@;
        proof {
            assert(rest[0] == argv@[i as int]@);
            assert(rest.skip(1) =~= args.skip(i + 1));
        }
        let flag = classify(&argv[i]);
        if !awaits_value(&flag) {
            apply_alone(&mut request, flag, &argv[i])?;
            i = i + 1;
        } else if i + 1 < argv.len() {
            proof {
                assert(rest[1] == argv@[i + 1]@);
                assert(rest.skip(2) =~= args.skip(i + 2));
            }
            apply_value(&mut request, flag, &argv[i + 1])?;
            i = i + 2;
        } else {
            apply_missing(&mut request, flag)?;
            i = i + 1;
        }
    }
    proof {
        assert(args.skip(i as int).len() == 0);
    }
    Ok(request)
}

/// The arguments that are neither one of this program's own flags nor the value
/// of one, in their order.
pub open spec fn foreign(args: Seq<Seq<u8>>) -> Seq<Seq<u8>>
    decreases args.len(),
{
    if args.len() == 0 {
        Seq::empty()
    } else if flag_of(args[0]) is Foreign {
        seq![args[0]] + foreign(args.skip(used(args)))
    } else {
        foreign(args.skip(used(args)))
    }
}

/// Whether no flag at the end of `args` is short of its value.
pub open spec fn complete(args: Seq<Seq<u8>>) -> bool
    decreases args.len(),
{
    if args.len() == 0 {
        true
    } else {
        (takes_value(flag_of(args[0])) ==> args.len() > 1) && complete(args.skip(used(args)))
    }
}

/// The child gets the arguments that are not this program's own, verbatim and
/// in their order, and nothing else.
pub proof fn law_forwarded_are_the_foreign(args: Seq<Seq<u8>>, so_far: Request)
    ensures
        parsed(args, so_far) matches Ok(request) ==> request.forwarded =~= so_far.forwarded
            + foreign(args),
    decreases args.len(),
{
    if args.len() > 0 {
        if let Ok(next) = first_applied(args, so_far) {
            law_forwarded_are_the_foreign(args.skip(used(args)), next);
        }
    }
}

/// Whether none of `args` is a flag of this program.
pub open spec fn all_foreign(args: Seq<Seq<u8>>) -> bool {
    forall|i: int| 0 <= i < args.len() ==> flag_of(#[trigger] args[i]) is Foreign
}

/// A flag of this program is never forwarded.
pub proof fn law_own_flags_are_never_forwarded(args: Seq<Seq<u8>>)
    ensures
        parsed(args, defaults()) matches Ok(request) ==> all_foreign(request.forwarded),
{
    law_forwarded_are_the_foreign(args, defaults());
    lemma_foreign_holds_no_flag(args);
}

proof fn lemma_foreign_holds_no_flag(args: Seq<Seq<u8>>)
    ensures
        all_foreign(foreign(args)),
    decreases args.len(),
{
    if args.len() > 0 {
        let tail = foreign(args.skip(used(args)));
        lemma_foreign_holds_no_flag(args.skip(used(args)));
        let whole = foreign(args);
        assert forall|i: int| 0 <= i < whole.len() implies flag_of(#[trigger] whole[i]) is Foreign by {
            if flag_of(args[0]) is Foreign {
                if i > 0 {
                    assert(whole[i] == tail[i - 1]);
                }
            } else {
                assert(whole[i] == tail[i]);
            }
        }
    }
}

/// A command line without any flag of this program is accepted and forwarded
/// as a whole, and everything else keeps its default.
pub proof fn law_foreign_arguments_pass_through(args: Seq<Seq<u8>>)
    requires
        all_foreign(args),
    ensures
        parsed(args, defaults()) == Ok::<Request, Problem>(
            Request { forwarded: args, ..defaults() },
        ),
{
    lemma_foreign_arguments_are_appended(args, defaults());
    assert(defaults().forwarded + args =~= args);
}

proof fn lemma_foreign_arguments_are_appended(args: Seq<Seq<u8>>, so_far: Request)
    requires
        all_foreign(args),
    ensures
        parsed(args, so_far) == Ok::<Request, Problem>(
            Request { forwarded: so_far.forwarded + args, ..so_far },
        ),
    decreases args.len(),
{
    if args.len() > 0 {
        let next = Request { forwarded: so_far.forwarded.push(args[0]), ..so_far };
        assert(flag_of(args[0]) is Foreign);
        assert(first_applied(args, so_far) == Ok::<Request, Problem>(next));
        lemma_foreign_arguments_are_appended(args.skip(1), next);
        assert(next.forwarded + args.skip(1) =~= so_far.forwarded + args);
    } else {
        assert(so_far.forwarded + args =~= so_far.forwarded);
    }
}

/// Arguments are read from left to right: what stands behind a complete command
/// line changes the request that it made, and what it refused stays refused.
pub proof fn law_arguments_are_read_in_order(
    front: Seq<Seq<u8>>,
    back: Seq<Seq<u8>>,
    so_far: Request,
)
    requires
        complete(front),
    ensures
        parsed(front + back, so_far) == (match parsed(front, so_far) {
            Ok(request) => parsed(back, request),
            Err(problem) => Err(problem),
        }),
    decreases front.len(),
{
    let whole = front + back;
    if front.len() == 0 {
        assert(whole =~= back);
    } else {
        assert(whole[0] == front[0]);
        if takes_value(flag_of(front[0])) {
            assert(whole[1] == front[1]);
        }
        let n = used(front);
        assert(used(whole) == n);
        assert(whole.skip(n) =~= front.skip(n) + back);
        if let Ok(next) = first_applied(front, so_far) {
            law_arguments_are_read_in_order(front.skip(n), back, next);
        }
    }
}

/// The last prompt wins: whatever a complete command line asked for before, a
/// prompt flag behind it sets the prompt, and leaves everything else as it was.
pub proof fn law_last_prompt_wins(front: Seq<Seq<u8>>, last: Seq<Seq<u8>>, prompt: Seq<char>)
    requires
        complete(front),
        (last.len() == 1 && flag_of(last[0]) == Flag::PromptIs(prompt)) || (last.len() == 2
            && flag_of(last[0]) is Prompt && crate::text::lossy_text(last[1]) == prompt),
    ensures
        parsed(front + last, defaults()) == (match parsed(front, defaults()) {
            Ok(request) => Ok(Request { inject: Some(prompt), ..request }),
            Err(problem) => Err(problem),
        }),
{
    law_arguments_are_read_in_order(front, last, defaults());
    if let Ok(request) = parsed(front, defaults()) {
        reveal_with_fuel(parsed, 2);
        assert(last.skip(used(last)).len() == 0);
        assert(first_applied(last, request) == Ok::<Request, Problem>(
            Request { inject: Some(prompt), ..request },
        ));
    }
}

/// Every span that an accepted command line carries is at least one second.
pub proof fn law_spans_are_positive(args: Seq<Seq<u8>>)
    ensures
        parsed(args, defaults()) matches Ok(request) ==> spans_positive(request),
{
    lemma_spans_stay_positive(args, defaults());
}

/// Whether the spans of a request are all positive.
pub open spec fn spans_positive(request: Request) -> bool {
    &&& request.inference_seconds matches Some(n) ==> n > 0
    &&& request.normal_cleanup_seconds > 0
    &&& request.forced_cleanup_seconds > 0
}

proof fn lemma_spans_stay_positive(args: Seq<Seq<u8>>, so_far: Request)
    requires
        spans_positive(so_far),
    ensures
        parsed(args, so_far) matches Ok(request) ==> spans_positive(request),
    decreases args.len(),
{
    if args.len() > 0 {
        if let Ok(next) = first_applied(args, so_far) {
            lemma_spans_stay_positive(args.skip(used(args)), next);
        }
    }
}

} // verus!
