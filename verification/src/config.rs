//! The configuration of a run: the command line, the environment, and what is
//! minted for the run itself.

use vstd::prelude::*;
use crate::args::{OutputFormat, ParsedArgs, Request};
use crate::text::OsText;
use crate::time::Duration;

verus! {

/// How long the screen has to be still before the prompt is typed, unless the
/// environment says otherwise.
pub const DEFAULT_QUIESCE_MS: u64 = 500;

/// What a coordinated review is run by.
#[derive(Debug)]
pub struct SecondOpinionConfig {
    pub run_id: String,
    pub lifecycle_path: OsText,
    pub inference: Duration,
    pub normal_cleanup: Duration,
    pub forced_cleanup: Duration,
}

/// [`SecondOpinionConfig`] with its texts as sequences.
pub struct Coordination {
    pub run_id: Seq<char>,
    pub lifecycle_path: Seq<u8>,
    pub inference: Duration,
    pub normal_cleanup: Duration,
    pub forced_cleanup: Duration,
}

impl View for SecondOpinionConfig {
    type V = Coordination;

    open spec fn view(&self) -> Coordination {
        Coordination {
            run_id: self.run_id@,
            lifecycle_path: self.lifecycle_path@,
            inference: self.inference,
            normal_cleanup: self.normal_cleanup,
            forced_cleanup: self.forced_cleanup,
        }
    }
}

/// A span of whole milliseconds.
pub open spec fn millis(n: u64) -> Duration {
    Duration { nanos: (n * 1_000_000) as u128 }
}

/// A span of whole seconds.
pub open spec fn seconds(n: u64) -> Duration {
    Duration { nanos: (n * 1_000_000_000) as u128 }
}

/// The number that a variable of the environment is set to, if it is a number.
pub open spec fn number_in(value: Option<Seq<u8>>) -> Option<u64> {
    match value {
        Some(value) => crate::text::decimal(crate::text::lossy_text(value)),
        None => None,
    }
}

fn read_number(value: &Option<OsText>) -> (number: Option<u64>)
    ensures
        number == number_in(crate::text::os_view(*value)),
{
    match value {
        Some(value) => {
            let text = value.to_string_lossy();
            crate::text::parse_u64(text.as_str())
        },
        None => None,
    }
}

/// The span that a variable asks for in milliseconds; zero where it is not set,
/// or not to a number.
pub open spec fn span_in(value: Option<Seq<u8>>) -> Duration {
    match number_in(value) {
        Some(ms) => millis(ms),
        None => millis(0),
    }
}

/// The span that a variable asks for in milliseconds; zero where it is not set,
/// or not to a number.
pub fn read_ms(value: &Option<OsText>) -> (span: Duration)
    ensures
        span == span_in(crate::text::os_view(*value)),
{
    match read_number(value) {
        Some(ms) => Duration::from_millis(ms),
        None => Duration::from_millis(0),
    }
}

/// How long the screen has to be still, by what the environment says: any
/// positive number of milliseconds, or else the default.
pub open spec fn quiesce_in(value: Option<Seq<u8>>) -> Duration {
    match number_in(value) {
        Some(ms) => if ms > 0 {
            millis(ms)
        } else {
            millis(DEFAULT_QUIESCE_MS)
        },
        None => millis(DEFAULT_QUIESCE_MS),
    }
}

/// How long the screen has to be still, by what the environment says.
pub fn quiesce(value: &Option<OsText>) -> (span: Duration)
    ensures
        span == quiesce_in(crate::text::os_view(*value)),
{
    match read_number(value) {
        Some(ms) => if ms > 0 {
            Duration::from_millis(ms)
        } else {
            Duration::from_millis(DEFAULT_QUIESCE_MS)
        },
        None => Duration::from_millis(DEFAULT_QUIESCE_MS),
    }
}

/// Waiting for the screen to be still is always on.
pub proof fn law_quiescence_is_never_off(value: Option<Seq<u8>>)
    ensures
        quiesce_in(value).nanos > 0,
{
}

/// What the run finds itself in.
#[derive(Debug)]
pub struct Environment {
    /// The name of the wrapper.
    pub wrapper: String,
    /// The directory for temporary files.
    pub temp_dir: OsText,
    /// The pause between two typed characters, in milliseconds.
    pub char_delay: Option<OsText>,
    /// How long the screen has to be still, in milliseconds.
    pub quiesce: Option<OsText>,
}

/// A lower-case hexadecimal digit.
pub open spec fn hex_digit(c: char) -> bool {
    '0' <= c <= '9' || 'a' <= c <= 'f'
}

/// Whether a text is a random UUID: five groups of hexadecimal digits with
/// hyphens between, the version and the variant in their places.
pub open spec fn is_random_uuid(text: Seq<char>) -> bool {
    &&& text.len() == 36
    &&& forall|i: int|
        0 <= i < 36 ==> if i == 8 || i == 13 || i == 18 || i == 23 {
            #[trigger] text[i] == '-'
        } else {
            hex_digit(text[i])
        }
    &&& text[14] == '4'
    &&& text[19] == '8' || text[19] == '9' || text[19] == 'a' || text[19] == 'b'
}

/// Calls `uuid::Uuid::new_v4` and formats what it gives. Which one it is depends
/// on chance; that it is the text of a random UUID does not.
#[verifier::external_body]
fn new_session_id() -> (id: String)
    ensures
        is_random_uuid(id@),
{
    uuid::Uuid::new_v4().to_string()
}

/// Whether `id` may be what is minted: a result of a call of `uuid::Uuid::new_v4`, as
/// text.
pub closed spec fn may_mint(id: String) -> bool {
    call_ensures(new_session_id, (), id)
}

/// A newly minted name of a session.
fn mint() -> (id: String)
    ensures
        may_mint(id),
        is_random_uuid(id@),
{
    let source = new_session_id;
    source()
}

/// What a run goes by.
#[derive(Debug)]
pub struct Config {
    pub session_id: String,
    pub forwarded: Vec<OsText>,
    pub inject_payload: Option<String>,
    pub output_format: OutputFormat,
    pub char_delay: Duration,
    pub quiesce: Duration,
    pub sentinel: OsText,
    pub settings_json: String,
    pub second_opinion: Option<SecondOpinionConfig>,
}

/// A coordination that may be missing, as sequences.
pub open spec fn coordination(config: Option<SecondOpinionConfig>) -> Option<Coordination> {
    match config {
        Some(config) => Some(config@),
        None => None,
    }
}

/// The coordination that a command line asks for: where it names the run, the
/// log and the time for inference.
pub open spec fn coordination_for(request: Request) -> Option<Coordination> {
    match (request.run_id, request.lifecycle_path, request.inference_seconds) {
        (Some(run_id), Some(lifecycle_path), Some(inference)) => Some(
            Coordination {
                run_id,
                lifecycle_path,
                inference: seconds(inference),
                normal_cleanup: seconds(request.normal_cleanup_seconds),
                forced_cleanup: seconds(request.forced_cleanup_seconds),
            },
        ),
        _ => None,
    }
}

/// The path of a session's sentinel.
pub open spec fn sentinel_of(
    temp_dir: Seq<u8>,
    wrapper: Seq<char>,
    session_id: Seq<char>,
) -> Seq<u8> {
    crate::text::joined(
        temp_dir,
        vstd::utf8::encode_utf8(crate::names::sentinel_name(wrapper, session_id)),
    )
}

/// The settings that make the child touch its sentinel.
pub open spec fn settings_for(sentinel: Seq<u8>) -> crate::json::Json {
    crate::hook::settings(crate::hook::touch_command(crate::text::lossy_text(sentinel)))
}

impl Config {
    /// Whether this is the configuration of the session `session_id` for a
    /// command line and an environment.
    pub open spec fn is_for(&self, request: Request, session_id: Seq<char>, env: Environment) -> bool {
        &&& self.session_id@ == session_id
        &&& crate::text::views(self.forwarded@) == request.forwarded
        &&& crate::text::text_view(self.inject_payload) == request.inject
        &&& self.output_format == request.output_format
        &&& self.char_delay == span_in(crate::text::os_view(env.char_delay))
        &&& self.quiesce == quiesce_in(crate::text::os_view(env.quiesce))
        &&& self.sentinel@ == sentinel_of(env.temp_dir@, env.wrapper@, session_id)
        &&& self.settings_json@ == crate::json::written(settings_for(self.sentinel@))
        &&& crate::json::read(self.settings_json@) == Some(settings_for(self.sentinel@))
        &&& coordination(self.second_opinion) == coordination_for(request)
    }

    /// The configuration of a session whose name is given.
    pub fn for_session(parsed: ParsedArgs, session_id: String, env: Environment) -> (config: Config)
        ensures
            config.is_for(parsed@, session_id@, env),
    {
        let second_opinion = match (parsed.run_id, parsed.lifecycle_path, parsed.inference_seconds) {
            (Some(run_id), Some(lifecycle_path), Some(inference)) => Some(
                SecondOpinionConfig {
                    run_id,
                    lifecycle_path,
                    inference: Duration::from_secs(inference),
                    normal_cleanup: Duration::from_secs(parsed.normal_cleanup_seconds),
                    forced_cleanup: Duration::from_secs(parsed.forced_cleanup_seconds),
                },
            ),
            _ => None,
        };
        let sentinel = crate::hook::sentinel_path(
            &env.temp_dir,
            env.wrapper.as_str(),
            session_id.as_str(),
        );
        let settings_json = crate::hook::stop_hook_settings(&sentinel);
        Config {
            session_id,
            forwarded: parsed.forwarded,
            inject_payload: parsed.inject,
            output_format: parsed.output_format,
            char_delay: read_ms(&env.char_delay),
            quiesce: quiesce(&env.quiesce),
            sentinel,
            settings_json,
            second_opinion,
        }
    }

    /// The configuration of a new session, whose name is minted for it.
    pub fn build(parsed: ParsedArgs, env: Environment) -> (config: Config)
        ensures
            exists|id: String| #[trigger] may_mint(id) && config.session_id@ == id@,
            is_random_uuid(config.session_id@),
            config.is_for(parsed@, config.session_id@, env),
    {
        Config::for_session(parsed, mint(), env)
    }
}

/// Concurrent runs do not collide: different sessions have different sentinels,
/// in whatever directory.
pub proof fn law_sentinels_do_not_collide(
    temp_dir: Seq<u8>,
    wrapper: Seq<char>,
    one: Seq<char>,
    other: Seq<char>,
)
    requires
        sentinel_of(temp_dir, wrapper, one) == sentinel_of(temp_dir, wrapper, other),
    ensures
        one == other,
{
    let prefix = wrapper + "-"@;
    let suffix = ".done"@;
    let a = crate::names::sentinel_name(wrapper, one);
    let b = crate::names::sentinel_name(wrapper, other);
    let x = vstd::utf8::encode_utf8(a);
    let y = vstd::utf8::encode_utf8(b);
    reveal_strlit("-");
    let first = prefix[0];
    assert(a[0] == first && b[0] == first);
    assert(x[0] == y[0] && x.len() > 0 && y.len() > 0) by {
        let bytes = vstd::utf8::encode_scalar(first as u32);
        assert(x == bytes + vstd::utf8::encode_utf8(a.drop_first()));
        assert(y == bytes + vstd::utf8::encode_utf8(b.drop_first()));
        assert(bytes.len() > 0);
    }
    let whole = sentinel_of(temp_dir, wrapper, one);
    if x[0] != 0x2f {
        let base = if temp_dir.len() == 0 || temp_dir.last() == 0x2f {
            temp_dir
        } else {
            temp_dir.push(0x2f)
        };
        assert(whole == base + x && whole == base + y);
        assert(x =~= whole.skip(base.len() as int));
        assert(y =~= whole.skip(base.len() as int));
    }
    vstd::utf8::encode_utf8_decode_utf8(a);
    vstd::utf8::encode_utf8_decode_utf8(b);
    assert(a == b);
    let n = prefix.len() as int;
    assert(one =~= a.subrange(n, a.len() - suffix.len()));
    assert(other =~= b.subrange(n, b.len() - suffix.len()));
}

/// A variable that is set to a number is that many milliseconds; one that is not set, or not
/// to a number, is no delay, and leaves the threshold at half a second. So does zero.
pub proof fn law_variables_are_milliseconds(
    value: &Option<OsText>,
    delay: Duration,
    threshold: Duration,
)
    requires
        call_ensures(read_ms, (value,), delay),
        call_ensures(quiesce, (value,), threshold),
    ensures
        ({
            let number = match *value {
                Some(text) => crate::text::decimal(crate::text::lossy_text(text@)),
                None => None,
            };
            &&& number matches Some(ms) ==> delay.nanos == ms * 1_000_000
            &&& number matches Some(ms) ==> (ms > 0 ==> threshold.nanos == ms * 1_000_000)
            &&& number is None ==> delay.nanos == 0
            &&& number is None || number == Some(0u64) ==> threshold.nanos == 500_000_000
        }),
{
}

/// What a run goes by is what was asked for: what is forwarded, the prompt and the format
/// by the command line; the delay and the threshold by their variables; the sentinel in the
/// directory for temporary files, called after the wrapper and the session.
pub proof fn law_what_a_run_goes_by(
    parsed: ParsedArgs,
    session_id: String,
    env: Environment,
    config: Config,
    delay: Duration,
    threshold: Duration,
)
    requires
        call_ensures(Config::for_session, (parsed, session_id, env), config),
        call_ensures(read_ms, (&env.char_delay,), delay),
        call_ensures(quiesce, (&env.quiesce,), threshold),
    ensures
        config.session_id@ == session_id@,
        config.forwarded@.len() == parsed.forwarded@.len(),
        forall|i: int|
            0 <= i < parsed.forwarded@.len() ==> (#[trigger] config.forwarded@[i])@
                == parsed.forwarded@[i]@,
        crate::text::text_view(config.inject_payload) == crate::text::text_view(parsed.inject),
        config.output_format == parsed.output_format,
        config.char_delay == delay,
        config.quiesce == threshold,
        config.sentinel@ == crate::text::joined(
            env.temp_dir@,
            vstd::utf8::encode_utf8(env.wrapper@ + "-"@ + session_id@ + ".done"@),
        ),
{
    let a = crate::text::views(config.forwarded@);
    let b = crate::text::views(parsed.forwarded@);
    assert(a == b);
    assert(a.len() == config.forwarded@.len() && b.len() == parsed.forwarded@.len());
    assert forall|i: int| 0 <= i < parsed.forwarded@.len() implies (
    #[trigger] config.forwarded@[i])@ == parsed.forwarded@[i]@ by {
        assert(a[i] == config.forwarded@[i]@);
        assert(b[i] == parsed.forwarded@[i]@);
    }
}

/// A review is coordinated where a name, a log and a time for inference are given, and goes
/// by what was given, in seconds.
pub proof fn law_what_a_review_goes_by(
    parsed: ParsedArgs,
    session_id: String,
    env: Environment,
    config: Config,
)
    requires
        call_ensures(Config::for_session, (parsed, session_id, env), config),
    ensures
        config.second_opinion is Some <==> parsed.run_id is Some && parsed.lifecycle_path is Some
            && parsed.inference_seconds is Some,
        config.second_opinion matches Some(policy) ==> {
            &&& policy.run_id@ == parsed.run_id->0@
            &&& policy.lifecycle_path@ == parsed.lifecycle_path->0@
            &&& policy.inference.nanos == parsed.inference_seconds->0 * 1_000_000_000
            &&& policy.normal_cleanup.nanos == parsed.normal_cleanup_seconds * 1_000_000_000
            &&& policy.forced_cleanup.nanos == parsed.forced_cleanup_seconds * 1_000_000_000
        },
{
    if let Some(policy) = config.second_opinion {
        assert(coordination(config.second_opinion) == Some(policy@));
    }
}

/// The child is told to touch the very sentinel that is waited for: the settings hold one
/// command for the end of a turn, and the shell reads its argument as the sentinel's path.
pub proof fn law_the_child_touches_what_is_waited_for(
    parsed: ParsedArgs,
    session_id: String,
    env: Environment,
    config: Config,
)
    requires
        call_ensures(Config::for_session, (parsed, session_id, env), config),
    ensures
        ({
            let settings = crate::json::read(config.settings_json@);
            &&& settings matches Some(whole)
            &&& whole.member("hooks"@) matches Some(hooks)
            &&& hooks.member("Stop"@) matches Some(stop)
            &&& stop.items() matches Some(matchers)
            &&& matchers.len() == 1
            &&& matchers[0].member("hooks"@) matches Some(list)
            &&& list.items() matches Some(commands)
            &&& commands.len() == 1
            &&& commands[0].member_text("type"@) == Some("command"@)
            &&& commands[0].member_text("command"@) matches Some(command)
            &&& crate::text::behind(command, "touch "@) matches Some(word)
            &&& crate::hook::shell_word(word) == Some(
                crate::text::lossy_text(config.sentinel@),
            )
        }),
{
    crate::hook::law_hook_touches_the_sentinel(crate::text::lossy_text(config.sentinel@));
}

} // verus!
