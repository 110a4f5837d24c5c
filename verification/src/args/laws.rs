//! What each argument of the command line is for: it changes its own setting and
//! leaves all others as they are, whatever was asked for before it and whatever stands
//! behind it.

use vstd::prelude::*;
use crate::args::{Flag, OutputFormat, ParseError, ParsedArgs, Problem, Request};
use crate::text::OsText;

verus! {

/// The bytes of an argument with this text.
pub open spec fn arg(text: Seq<char>) -> Seq<u8> {
    vstd::utf8::encode_utf8(text)
}

/// Whether a text is that of one of this program's own flags.
pub open spec fn is_own(text: Seq<char>) -> bool {
    ||| text == "-p"@
    ||| "-p="@.is_prefix_of(text)
    ||| text == "--output-format"@
    ||| "--output-format="@.is_prefix_of(text)
    ||| text == "--second-opinion-capabilities"@
    ||| text == "--second-opinion-run-id"@
    ||| text == "--second-opinion-lifecycle"@
    ||| text == "--second-opinion-inference-seconds"@
    ||| text == "--second-opinion-normal-cleanup-seconds"@
    ||| text == "--second-opinion-forced-cleanup-seconds"@
}

proof fn lemma_flag(text: Seq<char>)
    ensures
        crate::args::flag_of(arg(text)) == crate::args::flag_in(text),
{
    vstd::utf8::encode_utf8_valid_utf8(text);
    vstd::utf8::encode_utf8_decode_utf8(text);
}

proof fn lemma_own_flags()
    ensures
        crate::args::flag_in("-p"@) == Flag::<Seq<char>>::Prompt,
        crate::args::flag_in("--output-format"@) == Flag::<Seq<char>>::Format,
        crate::args::flag_in("--second-opinion-capabilities"@) == Flag::<Seq<char>>::Capabilities,
        crate::args::flag_in("--second-opinion-run-id"@) == Flag::<Seq<char>>::RunId,
        crate::args::flag_in("--second-opinion-lifecycle"@) == Flag::<Seq<char>>::Lifecycle,
        crate::args::flag_in("--second-opinion-inference-seconds"@) == Flag::<
            Seq<char>,
        >::InferenceSeconds,
        crate::args::flag_in("--second-opinion-normal-cleanup-seconds"@) == Flag::<
            Seq<char>,
        >::NormalCleanupSeconds,
        crate::args::flag_in("--second-opinion-forced-cleanup-seconds"@) == Flag::<
            Seq<char>,
        >::ForcedCleanupSeconds,
{
    reveal_strlit("-p");
    reveal_strlit("-p=");
    reveal_strlit("--output-format");
    reveal_strlit("--output-format=");
    reveal_strlit("--second-opinion-capabilities");
    reveal_strlit("--second-opinion-run-id");
    reveal_strlit("--second-opinion-lifecycle");
    reveal_strlit("--second-opinion-inference-seconds");
    reveal_strlit("--second-opinion-normal-cleanup-seconds");
    reveal_strlit("--second-opinion-forced-cleanup-seconds");
    lemma_no_prefix("--output-format"@);
    lemma_no_prefix("--second-opinion-capabilities"@);
    lemma_no_prefix("--second-opinion-run-id"@);
    lemma_no_prefix("--second-opinion-lifecycle"@);
    lemma_no_prefix("--second-opinion-inference-seconds"@);
    lemma_no_prefix("--second-opinion-normal-cleanup-seconds"@);
    lemma_no_prefix("--second-opinion-forced-cleanup-seconds"@);
    assert("-p"@.len() == 2);
    assert("--output-format"@.len() == 15);
    assert("--second-opinion-capabilities"@.len() == 29);
    assert("--second-opinion-run-id"@.len() == 23);
    assert("--second-opinion-lifecycle"@.len() == 26);
    assert("--second-opinion-inference-seconds"@.len() == 34);
    assert("--second-opinion-normal-cleanup-seconds"@.len() == 39);
    assert("--second-opinion-forced-cleanup-seconds"@.len() == 39);
    let normal = "--second-opinion-normal-cleanup-seconds"@;
    let forced = "--second-opinion-forced-cleanup-seconds"@;
    assert(normal[17] == 'n' && forced[17] == 'f');
    assert(normal != forced);
    assert(crate::args::flag_in(normal) == Flag::<Seq<char>>::NormalCleanupSeconds);
    assert(crate::args::flag_in(forced) == Flag::<Seq<char>>::ForcedCleanupSeconds);
}

proof fn lemma_no_prefix(text: Seq<char>)
    requires
        text.len() > 2,
        text[1] == '-',
        text[2] != 'o' || text.len() < "--output-format="@.len(),
    ensures
        crate::text::behind(text, "-p="@) is None,
        crate::text::behind(text, "--output-format="@) is None,
{
    reveal_strlit("-p=");
    reveal_strlit("--output-format=");
    let p = "-p="@;
    let f = "--output-format="@;
    if p.is_prefix_of(text) {
        assert(text.subrange(0, p.len() as int)[1] == p[1]);
    }
    if f.is_prefix_of(text) {
        assert(text.subrange(0, f.len() as int)[2] == f[2]);
    }
}

/// A flag of the two-part kind, and what it makes of the request so far.
proof fn lemma_flag_with_value(
    text: Seq<char>,
    value: Seq<u8>,
    rest: Seq<Seq<u8>>,
    so_far: Request,
)
    requires
        crate::args::takes_value(crate::args::flag_in(text)),
    ensures
        crate::args::parsed(seq![arg(text), value] + rest, so_far) == (
        match crate::args::with_value(so_far, crate::args::flag_in(text), value) {
            Ok(next) => crate::args::parsed(rest, next),
            Err(problem) => Err(problem),
        }),
        crate::args::parsed(seq![arg(text)], so_far) == crate::args::without_value(
            so_far,
            crate::args::flag_in(text),
        ),
{
    lemma_flag(text);
    let args = seq![arg(text), value] + rest;
    assert(args[0] == arg(text) && args[1] == value);
    assert(args.skip(2) =~= rest);
    let alone = seq![arg(text)];
    assert(alone.skip(1).len() == 0);
    reveal_with_fuel(crate::args::parsed, 2);
}

/// A flag that stands alone, and what it makes of the request so far.
proof fn lemma_flag_alone(first: Seq<u8>, rest: Seq<Seq<u8>>, so_far: Request)
    requires
        !crate::args::takes_value(crate::args::flag_of(first)),
    ensures
        crate::args::parsed(seq![first] + rest, so_far) == (match crate::args::alone(
            so_far,
            crate::args::flag_of(first),
            first,
        ) {
            Ok(next) => crate::args::parsed(rest, next),
            Err(problem) => Err(problem),
        }),
{
    let args = seq![first] + rest;
    assert(args[0] == first);
    assert(args.skip(1) =~= rest);
}

/// The command line is read from nothing asked for: no prompt, nothing forwarded, text
/// to print, no review, and ten and five seconds for its cleanup.
pub proof fn law_reading_starts_from_the_defaults(
    argv: Vec<OsText>,
    result: Result<ParsedArgs, ParseError>,
)
    requires
        call_ensures(crate::args::parse, (argv,), result),
    ensures
        crate::args::parsed_view(result) == crate::args::parsed(
            crate::text::views(argv@),
            Request {
                inject: None,
                forwarded: Seq::empty(),
                output_format: OutputFormat::Text,
                capabilities: false,
                run_id: None,
                lifecycle_path: None,
                inference_seconds: None,
                normal_cleanup_seconds: 10,
                forced_cleanup_seconds: 5,
                cleanup_policy_supplied: false,
            },
        ),
{
}

/// Nothing more to read changes nothing more.
pub proof fn law_no_argument_changes_nothing(so_far: Request)
    ensures
        crate::args::parsed(Seq::empty(), so_far) == Ok::<Request, Problem>(so_far),
{
}

/// `-p` with a value sets the prompt, to the text of the value, and nothing else.
pub proof fn law_p_sets_the_prompt(value: Seq<u8>, rest: Seq<Seq<u8>>, so_far: Request)
    ensures
        crate::args::parsed(seq![arg("-p"@), value] + rest, so_far) == crate::args::parsed(
            rest,
            Request { inject: Some(crate::text::lossy_text(value)), ..so_far },
        ),
{
    lemma_own_flags();
    lemma_flag_with_value("-p"@, value, rest, so_far);
}

/// `-p=` sets the prompt, to what stands behind it, and nothing else.
pub proof fn law_p_equals_sets_the_prompt(prompt: Seq<char>, rest: Seq<Seq<u8>>, so_far: Request)
    ensures
        crate::args::parsed(seq![arg("-p="@ + prompt)] + rest, so_far) == crate::args::parsed(
            rest,
            Request { inject: Some(prompt), ..so_far },
        ),
{
    let text = "-p="@ + prompt;
    reveal_strlit("-p");
    reveal_strlit("-p=");
    lemma_flag(text);
    crate::text::law_what_is_behind_a_prefix("-p="@, prompt);
    assert(text.len() >= 3);
    lemma_flag_alone(arg(text), rest, so_far);
}

/// `-p` at the very end has no value, and leaves no prompt; nothing else changes.
pub proof fn law_p_at_the_end_leaves_no_prompt(so_far: Request)
    ensures
        crate::args::parsed(seq![arg("-p"@)], so_far) == Ok::<Request, Problem>(
            Request { inject: None, ..so_far },
        ),
{
    lemma_own_flags();
    lemma_flag_with_value("-p"@, Seq::empty(), Seq::empty(), so_far);
}

/// Whether a format is called so.
pub open spec fn is_called(format: OutputFormat, name: Seq<char>) -> bool {
    match format {
        OutputFormat::Text => name == "text"@,
        OutputFormat::StreamJson => name == "stream-json"@,
        OutputFormat::Json => name == "json"@,
    }
}

proof fn lemma_format(name: Seq<char>)
    ensures
        forall|format: OutputFormat| #[trigger]
            is_called(format, name) ==> crate::args::format_or_problem(name) == Ok::<
                OutputFormat,
                Problem,
            >(format),
        (forall|format: OutputFormat| !#[trigger] is_called(format, name))
            ==> crate::args::format_or_problem(name) == Err::<OutputFormat, Problem>(
            Problem::InvalidOutputFormat(name),
        ),
{
    reveal_strlit("text");
    reveal_strlit("stream-json");
    reveal_strlit("json");
    assert("text"@.len() == 4 && "json"@.len() == 4 && "stream-json"@.len() == 11);
    assert("text"@[0] == 't' && "json"@[0] == 'j');
    assert(is_called(OutputFormat::Text, name) <==> name == "text"@);
    assert(is_called(OutputFormat::StreamJson, name) <==> name == "stream-json"@);
    assert(is_called(OutputFormat::Json, name) <==> name == "json"@);
}

/// `--output-format` with the name of a format sets the format, and nothing else; any
/// other value is refused, by its text.
pub proof fn law_output_format_sets_the_format(
    value: Seq<u8>,
    rest: Seq<Seq<u8>>,
    so_far: Request,
)
    ensures
        ({
            let name = crate::text::lossy_text(value);
            let result = crate::args::parsed(seq![arg("--output-format"@), value] + rest, so_far);
            &&& forall|format: OutputFormat| #[trigger]
                is_called(format, name) ==> result == crate::args::parsed(
                    rest,
                    Request { output_format: format, ..so_far },
                )
            &&& (forall|format: OutputFormat| !#[trigger] is_called(format, name)) ==> result
                == Err::<Request, Problem>(Problem::InvalidOutputFormat(name))
        }),
        crate::args::parsed(seq![arg("--output-format"@)], so_far) == Err::<Request, Problem>(
            Problem::MissingValue("--output-format"@),
        ),
{
    lemma_own_flags();
    lemma_format(crate::text::lossy_text(value));
    lemma_flag_with_value("--output-format"@, value, rest, so_far);
}

/// `--output-format=` with the name of a format behind it sets the format, and nothing
/// else; anything else behind it is refused.
pub proof fn law_output_format_equals_sets_the_format(
    name: Seq<char>,
    rest: Seq<Seq<u8>>,
    so_far: Request,
)
    ensures
        ({
            let result = crate::args::parsed(
                seq![arg("--output-format="@ + name)] + rest,
                so_far,
            );
            &&& forall|format: OutputFormat| #[trigger]
                is_called(format, name) ==> result == crate::args::parsed(
                    rest,
                    Request { output_format: format, ..so_far },
                )
            &&& (forall|format: OutputFormat| !#[trigger] is_called(format, name)) ==> result
                == Err::<Request, Problem>(Problem::InvalidOutputFormat(name))
        }),
{
    let text = "--output-format="@ + name;
    reveal_strlit("-p");
    reveal_strlit("-p=");
    reveal_strlit("--output-format");
    reveal_strlit("--output-format=");
    lemma_flag(text);
    lemma_format(name);
    crate::text::law_what_is_behind_a_prefix("--output-format="@, name);
    assert(text[1] == '-');
    if "-p="@.is_prefix_of(text) {
        assert(text.subrange(0, 3)[1] == "-p="@[1]);
    }
    assert(text.len() >= 16);
    lemma_flag_alone(arg(text), rest, so_far);
}

/// The flag for the capabilities asks for them, and changes nothing else.
pub proof fn law_capabilities_are_asked_for(rest: Seq<Seq<u8>>, so_far: Request)
    ensures
        crate::args::parsed(seq![arg("--second-opinion-capabilities"@)] + rest, so_far)
            == crate::args::parsed(rest, Request { capabilities: true, ..so_far }),
{
    lemma_own_flags();
    lemma_flag("--second-opinion-capabilities"@);
    lemma_flag_alone(arg("--second-opinion-capabilities"@), rest, so_far);
}

/// The flag for the name of a review sets that name, and nothing else; it needs a value.
pub proof fn law_run_id_names_the_review(value: Seq<u8>, rest: Seq<Seq<u8>>, so_far: Request)
    ensures
        crate::args::parsed(seq![arg("--second-opinion-run-id"@), value] + rest, so_far)
            == crate::args::parsed(
            rest,
            Request { run_id: Some(crate::text::lossy_text(value)), ..so_far },
        ),
        crate::args::parsed(seq![arg("--second-opinion-run-id"@)], so_far) == Err::<
            Request,
            Problem,
        >(Problem::MissingValue("--second-opinion-run-id"@)),
{
    lemma_own_flags();
    lemma_flag_with_value("--second-opinion-run-id"@, value, rest, so_far);
}

/// The flag for the log sets its path, byte for byte, and nothing else; it needs a value.
pub proof fn law_lifecycle_sets_the_path(value: Seq<u8>, rest: Seq<Seq<u8>>, so_far: Request)
    ensures
        crate::args::parsed(seq![arg("--second-opinion-lifecycle"@), value] + rest, so_far)
            == crate::args::parsed(rest, Request { lifecycle_path: Some(value), ..so_far }),
        crate::args::parsed(seq![arg("--second-opinion-lifecycle"@)], so_far) == Err::<
            Request,
            Problem,
        >(Problem::MissingValue("--second-opinion-lifecycle"@)),
{
    lemma_own_flags();
    lemma_flag_with_value("--second-opinion-lifecycle"@, value, rest, so_far);
}

/// The positive number that a value writes, if it writes one.
pub open spec fn seconds_in(value: Seq<u8>) -> Option<u64> {
    match crate::text::decimal(crate::text::lossy_text(value)) {
        Some(n) if n > 0 => Some(n),
        _ => None,
    }
}

/// The flag for the time for inference sets it to a positive number of seconds, and
/// nothing else; it refuses any other value, and needs one.
pub proof fn law_inference_seconds_bound_the_inference(
    value: Seq<u8>,
    rest: Seq<Seq<u8>>,
    so_far: Request,
)
    ensures
        crate::args::parsed(seq![arg("--second-opinion-inference-seconds"@), value] + rest, so_far)
            == (match seconds_in(value) {
            Some(n) => crate::args::parsed(rest, Request { inference_seconds: Some(n), ..so_far }),
            None => Err(
                Problem::InvalidPositiveInteger(
                    "--second-opinion-inference-seconds"@,
                    crate::text::lossy_text(value),
                ),
            ),
        }),
        crate::args::parsed(seq![arg("--second-opinion-inference-seconds"@)], so_far) == Err::<
            Request,
            Problem,
        >(Problem::MissingValue("--second-opinion-inference-seconds"@)),
{
    lemma_own_flags();
    lemma_flag_with_value("--second-opinion-inference-seconds"@, value, rest, so_far);
}

/// The flag for the time that the child has to go by itself sets it to a positive number
/// of seconds, and is noted as a cleanup policy; nothing else changes.
pub proof fn law_normal_cleanup_seconds_are_set(
    value: Seq<u8>,
    rest: Seq<Seq<u8>>,
    so_far: Request,
)
    ensures
        crate::args::parsed(
            seq![arg("--second-opinion-normal-cleanup-seconds"@), value] + rest,
            so_far,
        ) == (match seconds_in(value) {
            Some(n) => crate::args::parsed(
                rest,
                Request { normal_cleanup_seconds: n, cleanup_policy_supplied: true, ..so_far },
            ),
            None => Err(
                Problem::InvalidPositiveInteger(
                    "--second-opinion-normal-cleanup-seconds"@,
                    crate::text::lossy_text(value),
                ),
            ),
        }),
        crate::args::parsed(seq![arg("--second-opinion-normal-cleanup-seconds"@)], so_far) == Err::<
            Request,
            Problem,
        >(Problem::MissingValue("--second-opinion-normal-cleanup-seconds"@)),
{
    lemma_own_flags();
    lemma_flag_with_value("--second-opinion-normal-cleanup-seconds"@, value, rest, so_far);
}

/// The flag for the time that the killing may take sets it to a positive number of
/// seconds, and is noted as a cleanup policy; nothing else changes.
pub proof fn law_forced_cleanup_seconds_are_set(
    value: Seq<u8>,
    rest: Seq<Seq<u8>>,
    so_far: Request,
)
    ensures
        crate::args::parsed(
            seq![arg("--second-opinion-forced-cleanup-seconds"@), value] + rest,
            so_far,
        ) == (match seconds_in(value) {
            Some(n) => crate::args::parsed(
                rest,
                Request { forced_cleanup_seconds: n, cleanup_policy_supplied: true, ..so_far },
            ),
            None => Err(
                Problem::InvalidPositiveInteger(
                    "--second-opinion-forced-cleanup-seconds"@,
                    crate::text::lossy_text(value),
                ),
            ),
        }),
        crate::args::parsed(seq![arg("--second-opinion-forced-cleanup-seconds"@)], so_far) == Err::<
            Request,
            Problem,
        >(Problem::MissingValue("--second-opinion-forced-cleanup-seconds"@)),
{
    lemma_own_flags();
    lemma_flag_with_value("--second-opinion-forced-cleanup-seconds"@, value, rest, so_far);
}

/// Any other argument is forwarded as it is, behind those before it, and changes nothing
/// else; so is one that is not UTF-8.
pub proof fn law_other_arguments_are_forwarded(
    other: Seq<u8>,
    rest: Seq<Seq<u8>>,
    so_far: Request,
)
    requires
        forall|text: Seq<char>| other == #[trigger] arg(text) ==> !is_own(text),
    ensures
        crate::args::parsed(seq![other] + rest, so_far) == crate::args::parsed(
            rest,
            Request { forwarded: so_far.forwarded + seq![other], ..so_far },
        ),
{
    if vstd::utf8::valid_utf8(other) {
        let text = vstd::utf8::decode_utf8(other);
        vstd::utf8::decode_utf8_encode_utf8(other);
        assert(other == arg(text));
        assert(!is_own(text));
        assert(crate::args::flag_in(text) == Flag::<Seq<char>>::Foreign);
    }
    assert(crate::args::flag_of(other) == Flag::<Seq<char>>::Foreign);
    lemma_flag_alone(other, rest, so_far);
    assert(so_far.forwarded.push(other) =~= so_far.forwarded + seq![other]);
}

/// The prompt of a command line outlasts every other flag behind it: a format, the
/// capabilities and anything forwarded leave the prompt as the arguments before made it.
pub proof fn law_the_prompt_outlasts_other_flags(
    prompt: Seq<u8>,
    name: Seq<char>,
    format: OutputFormat,
    other: Seq<u8>,
    so_far: Request,
)
    requires
        is_called(format, name),
        forall|text: Seq<char>| other == #[trigger] arg(text) ==> !is_own(text),
    ensures
        ({
            let p = seq![arg("-p"@), prompt];
            let all = p + (seq![arg("--output-format="@ + name)] + (seq![other] + seq![
                arg("--second-opinion-capabilities"@),
            ]));
            crate::args::parsed(all, so_far) == Ok::<Request, Problem>(
                Request {
                    inject: Some(crate::text::lossy_text(prompt)),
                    output_format: format,
                    capabilities: true,
                    forwarded: so_far.forwarded + seq![other],
                    ..so_far
                },
            )
        }),
{
    let last = seq![arg("--second-opinion-capabilities"@)];
    let third = seq![other] + last;
    let second = seq![arg("--output-format="@ + name)] + third;
    let one = Request { inject: Some(crate::text::lossy_text(prompt)), ..so_far };
    let two = Request { output_format: format, ..one };
    let three = Request { forwarded: two.forwarded + seq![other], ..two };
    law_p_sets_the_prompt(prompt, second, so_far);
    law_output_format_equals_sets_the_format(name, third, one);
    law_other_arguments_are_forwarded(other, last, two);
    law_capabilities_are_asked_for(Seq::empty(), three);
    assert(last + Seq::<Seq<u8>>::empty() =~= last);
    law_no_argument_changes_nothing(Request { capabilities: true, ..three });
}

/// What is said of an error names the flag and the value.
pub proof fn law_messages_name_what_is_wrong(error: &ParseError, message: String)
    requires
        call_ensures(ParseError::message, (error,), message),
    ensures
        *error matches ParseError::MissingValue(flag) ==> message@ == "missing value for "@ + flag@,
        *error matches ParseError::InvalidOutputFormat(value) ==> message@
            == "invalid --output-format value "@ + crate::args::debug_text(value@)
            + "; expected one of: text, stream-json, json"@,
        *error matches ParseError::InvalidPositiveInteger(flag, value) ==> message@
            == "invalid positive integer for "@ + flag@ + ": "@ + crate::args::debug_text(value@),
{
}

/// What is read off the command line is what it is seen as.
pub proof fn law_requests_are_what_was_read(parsed: ParsedArgs)
    ensures
        parsed@.inject == crate::text::text_view(parsed.inject),
        parsed@.forwarded == crate::text::views(parsed.forwarded@),
        parsed@.output_format == parsed.output_format,
        parsed@.capabilities == parsed.capabilities,
        parsed@.run_id == crate::text::text_view(parsed.run_id),
        parsed@.lifecycle_path == crate::text::os_view(parsed.lifecycle_path),
        parsed@.inference_seconds == parsed.inference_seconds,
        parsed@.normal_cleanup_seconds == parsed.normal_cleanup_seconds,
        parsed@.forced_cleanup_seconds == parsed.forced_cleanup_seconds,
        parsed@.cleanup_policy_supplied == parsed.cleanup_policy_supplied,
{
}

/// A value for seconds, call by call: a positive number, or an error that names the flag and
/// the text.
pub proof fn law_seconds_call_by_call(
    value: &OsText,
    flag: &'static str,
    number: Result<u64, ParseError>,
)
    requires
        call_ensures(crate::args::positive_integer, (value, flag), number),
    ensures
        number matches Ok(n) ==> n > 0 && seconds_in(value@) == Some(n),
        number matches Err(error) ==> seconds_in(value@) is None && error@
            == Problem::InvalidPositiveInteger(flag@, crate::text::lossy_text(value@)),
{
}

} // verus!
