//! Decisions of the quick-reply router: which messages go to the language
//! model, how its answer is read, and how the router is configured.
//!
//! The HTTP exchange with the model is left to the caller; this module decides
//! before and after it.

use vstd::prelude::*;
use crate::text::{trim, contains, occurs_at, eq_ic, join, strs};

verus! {

/// The model answers with this marker when a message needs the full pipeline.
pub const FORWARD_MARKER: &'static str = "FORWARD_TO_AGENT";

/// Messages longer than this many characters always go to the full pipeline.
pub const MAX_SIMPLE_MESSAGE_LENGTH: usize = 300;

/// Endpoint used when no other is configured.
pub const DEFAULT_OPENAI_URL: &'static str = "https://api.openai.com/v1";

/// Model used when no other is configured.
pub const DEFAULT_MODEL: &'static str = "gpt-5.4";

/// Name the assistant uses when the employee has none.
pub const DEFAULT_ASSISTANT_NAME: &'static str = "Boiled-Egg";

pub const MEMORY_START: &'static str = "<MEMORY_UPDATE>";

pub const MEMORY_END: &'static str = "</MEMORY_UPDATE>";

pub const PROMPT_OPENING: &'static str = "You are ";

pub const PROMPT_BODY: &'static str = ", a friendly and helpful assistant.

Your job is to classify messages:
1. RESPOND DIRECTLY to questions you can answer quickly (greetings, casual chat, simple questions, thank you messages)
2. Output ONLY \"FORWARD_TO_AGENT\" for tasks that require tools, code, file operations, research, or multi-step work

When responding directly:
- IMPORTANT: If user memory is provided, use their name and any relevant details to personalize your response
- Address the user by name when greeting them or when it feels natural
- Reference their preferences, projects, or context from memory when relevant
- When the user asks what you know about them or asks for their info, list ALL facts from the memory - do not summarize or omit details
- IMPORTANT: When the user tells you something about themselves (name, school, job, preferences, etc.), you MUST append a <MEMORY_UPDATE> block to save it

Memory update format:
<MEMORY_UPDATE>
## Section
- Fact
</MEMORY_UPDATE>

Example - if user says \"I go to Stanford\":
Great! I'll remember that.

<MEMORY_UPDATE>
## Profile
- Goes to Stanford University
</MEMORY_UPDATE>

Valid sections: Profile, Preferences, Projects, Contacts, Decisions, Processes

Keep responses brief and friendly.";

/// The name the prompt introduces the assistant by.
pub open spec fn assistant_name(employee_name: Option<&str>) -> Seq<char> {
    match employee_name {
        Some(n) => n@,
        None => DEFAULT_ASSISTANT_NAME@,
    }
}

/// The system prompt: the opening, the assistant's name, then the fixed body.
pub open spec fn system_prompt(employee_name: Option<&str>) -> Seq<char> {
    PROMPT_OPENING@ + assistant_name(employee_name) + PROMPT_BODY@
}

/// System prompt for the classifier, introducing the assistant by name.
pub fn build_system_prompt(employee_name: Option<&str>) -> (r: String)
    ensures
        r@ == system_prompt(employee_name),
{
    let name = match employee_name {
        Some(n) => n,
        None => DEFAULT_ASSISTANT_NAME,
    };
    crate::text::concat3(PROMPT_OPENING, name, PROMPT_BODY)
}

/// Result of routing a message.
#[derive(Debug, Clone)]
pub enum RouterDecision {
    /// The model answered; its reply and the memory block it asked to save.
    Simple { response: String, memory_update: Option<String> },
    /// The message goes to the full pipeline.
    Complex,
    /// Routing is off or failed; the message goes to the pipeline unchanged.
    Passthrough,
}

/// Settings of the router.
#[derive(Debug, Clone)]
pub struct RouterConfig {
    pub openai_api_key: Option<String>,
    pub openai_url: String,
    pub model: String,
    pub enabled: bool,
    pub use_azure_auth: bool,
}

/// A setting counts when present and not blank; it is kept trimmed.
pub open spec fn present_trimmed(v: Option<String>) -> Option<Seq<char>> {
    match v {
        Some(s) => if trim(s@).len() > 0 {
            Some(trim(s@))
        } else {
            None
        },
        None => None,
    }
}

fn trimmed_setting(v: &Option<String>) -> (r: Option<String>)
    ensures
        crate::text::opt_str(r) == present_trimmed(*v),
{
    match v {
        Some(s) => if crate::text::is_blank(s.as_str()) {
            None
        } else {
            Some(crate::text::trim_string(s))
        },
        None => None,
    }
}

/// The Azure OpenAI base URL: trimmed, trailing slashes removed, and
/// `/openai/v1` appended unless it already ends so.
pub open spec fn azure_endpoint(raw: Seq<char>) -> Seq<char> {
    let t = trim_trailing_slashes(trim(raw));
    if crate::text::ends_with(t, "/openai/v1"@) {
        t
    } else {
        t + "/openai/v1"@
    }
}

/// The sequence without its trailing `/` characters.
pub open spec fn trim_trailing_slashes(s: Seq<char>) -> Seq<char>
    decreases s.len(),
{
    if s.len() > 0 && s.last() == '/' {
        trim_trailing_slashes(s.drop_last())
    } else {
        s
    }
}

/// Base URL for an Azure OpenAI endpoint.
pub fn normalize_azure_endpoint(raw: &str) -> (r: String)
    ensures
        r@ == azure_endpoint(raw@),
{
    let v = crate::text::to_chars(raw);
    let t = crate::text::trim_chars(v.as_slice());
    let mut end: usize = t.len();
    proof {
        assert(t@.subrange(0, t@.len() as int) =~= t@);
    }
    while end > 0 && t[end - 1] == '/'
        invariant
            end <= t@.len(),
            trim_trailing_slashes(t@) == trim_trailing_slashes(t@.subrange(0, end as int)),
        decreases end,
    {
        proof {
            assert(t@.subrange(0, end as int).drop_last() =~= t@.subrange(0, end - 1));
        }
        end = end - 1;
    }
    let body = crate::text::slice_range(t.as_slice(), 0, end);
    proof {
        if body@.len() > 0 {
            assert(body@.last() == t@[end - 1]);
        }
        assert(trim_trailing_slashes(body@) == body@);
    }
    let suffix = crate::text::to_chars("/openai/v1");
    let base = crate::text::from_chars(body.as_slice());
    if crate::text::ends_with_chars(body.as_slice(), suffix.as_slice()) {
        base
    } else {
        crate::text::concat2(base.as_str(), "/openai/v1")
    }
}

/// What a configuration is resolved to from the raw settings (each absent
/// when unset).
pub open spec fn config_from(
    azure_api_key: Option<String>,
    azure_endpoint_raw: Option<String>,
    openai_api_key: Option<String>,
    openai_url: Option<String>,
    model: Option<String>,
    enabled: Option<String>,
    c: RouterConfig,
) -> bool {
    &&& if present_trimmed(azure_api_key) is Some && present_trimmed(azure_endpoint_raw) is Some {
        &&& crate::text::opt_str(c.openai_api_key) == present_trimmed(azure_api_key)
        &&& c.openai_url@ == azure_endpoint(present_trimmed(azure_endpoint_raw).unwrap())
        &&& c.use_azure_auth
    } else {
        &&& crate::text::opt_str(c.openai_api_key) == present_trimmed(openai_api_key)
        &&& c.openai_url@ == (match openai_url {
            Some(u) => u@,
            None => DEFAULT_OPENAI_URL@,
        })
        &&& !c.use_azure_auth
    }
    &&& c.model@ == (match model {
        Some(m) => m@,
        None => DEFAULT_MODEL@,
    })
    &&& c.enabled == (match enabled {
        Some(e) => !eq_ic(e@, "false"@),
        None => true,
    })
}

impl RouterConfig {
    /// Resolves the configuration from raw settings: the Azure pair wins when
    /// both parts are set; routing is on unless the flag says `false`.
    pub fn from_settings(
        azure_api_key: Option<String>,
        azure_endpoint_raw: Option<String>,
        openai_api_key: Option<String>,
        openai_url: Option<String>,
        model: Option<String>,
        enabled: Option<String>,
    ) -> (c: RouterConfig)
        ensures
            config_from(
                azure_api_key,
                azure_endpoint_raw,
                openai_api_key,
                openai_url,
                model,
                enabled,
                c,
            ),
    {
        let azure_key = trimmed_setting(&azure_api_key);
        let azure_endpoint_value = trimmed_setting(&azure_endpoint_raw);
        let (key, url, use_azure) = match (azure_key, azure_endpoint_value) {
            (Some(k), Some(e)) => {
                proof {
                    assert(trim(e@) == e@) by {
                        crate::text::lemma_trim_idempotent(azure_endpoint_raw.unwrap()@);
                    }
                }
                (Some(k), normalize_azure_endpoint(e.as_str()), true)
            },
            _ => {
                let k = trimmed_setting(&openai_api_key);
                let u = match openai_url {
                    Some(u) => u,
                    None => crate::text::owned(DEFAULT_OPENAI_URL),
                };
                (k, u, false)
            },
        };
        let model = match model {
            Some(m) => m,
            None => crate::text::owned(DEFAULT_MODEL),
        };
        let enabled = match &enabled {
            Some(e) => !crate::text::str_eq_ic(e.as_str(), "false"),
            None => true,
        };
        RouterConfig { openai_api_key: key, openai_url: url, model, enabled, use_azure_auth: use_azure }
    }

    /// Whether routing is on.
    pub fn is_enabled(&self) -> (r: bool)
        ensures
            r == self.enabled,
    {
        self.enabled
    }
}

/// The decision taken before the model is asked, if one is due: routing off
/// or no key, and blank messages, pass through; messages of more than
/// `MAX_SIMPLE_MESSAGE_LENGTH` characters go to the pipeline.
pub open spec fn early_decision(config: RouterConfig, message: &str) -> Option<RouterDecision> {
    if !config.enabled || config.openai_api_key is None || trim(message@).len() == 0 {
        Some(RouterDecision::Passthrough)
    } else if message@.len() > MAX_SIMPLE_MESSAGE_LENGTH {
        Some(RouterDecision::Complex)
    } else {
        None
    }
}

/// Whether the message is decided without the model (`Some`), or must be sent.
pub fn pre_route(config: &RouterConfig, message: &str) -> (r: Option<RouterDecision>)
    ensures
        r == early_decision(*config, message),
{
    if !config.enabled || config.openai_api_key.is_none() || crate::text::is_blank(message) {
        return Some(RouterDecision::Passthrough);
    }
    let chars = crate::text::to_chars(message);
    if chars.len() > MAX_SIMPLE_MESSAGE_LENGTH {
        return Some(RouterDecision::Complex);
    }
    None
}

/// `i` is the first position where `pat` occurs in `s`.
pub open spec fn first_at(s: Seq<char>, pat: Seq<char>, i: int) -> bool {
    occurs_at(s, pat, i) && forall|j: int| 0 <= j < i ==> !occurs_at(s, pat, j)
}

/// A reply is readable when no closing memory marker comes before the first
/// opening one (the reading slices between the two).
pub open spec fn markers_ordered(s: Seq<char>) -> bool {
    forall|i: int, j: int|
        first_at(s, MEMORY_START@, i) && first_at(s, MEMORY_END@, j) ==> j >= i + MEMORY_START@.len()
}

/// Reply and memory block of a model answer: the text before the first
/// `<MEMORY_UPDATE>` (trimmed), and what follows it up to the first
/// `</MEMORY_UPDATE>` or the end (trimmed, absent when empty).
pub open spec fn parsed_reply(s: Seq<char>, reply: Seq<char>, update: Option<Seq<char>>) -> bool {
    &&& !contains(s, MEMORY_START@) ==> reply == s && update is None
    &&& forall|i: int| #[trigger] first_at(s, MEMORY_START@, i) ==> {
        let rest_start = i + MEMORY_START@.len();
        let body = if contains(s, MEMORY_END@) {
            s.subrange(rest_start, choose|j: int| first_at(s, MEMORY_END@, j))
        } else {
            s.skip(rest_start)
        };
        &&& reply == trim(s.take(i))
        &&& update == (if trim(body).len() == 0 {
            None
        } else {
            Some(trim(body))
        })
    }
}

/// Whether a model answer can be read (see `markers_ordered`).
pub fn reply_markers_ordered(response: &str) -> (r: bool)
    ensures
        r == markers_ordered(response@),
{
    let v = crate::text::to_chars(response);
    let start = crate::text::to_chars(MEMORY_START);
    let end = crate::text::to_chars(MEMORY_END);
    let s = crate::text::find_chars(v.as_slice(), start.as_slice());
    let e = crate::text::find_chars(v.as_slice(), end.as_slice());
    match (s, e) {
        (Some(i), Some(j)) => {
            proof {
                assert forall|a: int, b: int|
                    first_at(v@, MEMORY_START@, a) && first_at(v@, MEMORY_END@, b) implies a == i && b == j by {
                    if a < i {
                        assert(!occurs_at(v@, MEMORY_START@, a));
                    }
                    if i < a {
                        assert(!occurs_at(v@, MEMORY_START@, i as int));
                    }
                    if b < j {
                        assert(!occurs_at(v@, MEMORY_END@, b));
                    }
                    if j < b {
                        assert(!occurs_at(v@, MEMORY_END@, j as int));
                    }
                }
                assert(first_at(v@, MEMORY_START@, i as int));
                assert(first_at(v@, MEMORY_END@, j as int));
            }
            j >= i && j - i >= start.len()
        },
        _ => {
            proof {
                assert forall|a: int, b: int|
                    first_at(v@, MEMORY_START@, a) && first_at(v@, MEMORY_END@, b) implies b >= a
                        + MEMORY_START@.len() by {
                    assert(contains(v@, MEMORY_START@));
                    assert(contains(v@, MEMORY_END@));
                }
            }
            true
        },
    }
}

/// Splits a model answer into its reply and its memory block.
pub fn parse_response(response: &str) -> (r: (String, Option<String>))
    requires
        markers_ordered(response@),
    ensures
        parsed_reply(response@, r.0@, crate::text::opt_str(r.1)),
{
    let v = crate::text::to_chars(response);
    let total: usize = v.len();
    let start = crate::text::to_chars(MEMORY_START);
    let end = crate::text::to_chars(MEMORY_END);
    match crate::text::find_chars(v.as_slice(), start.as_slice()) {
        None => (crate::text::owned(response), None),
        Some(i) => {
            let before = crate::text::slice_range(v.as_slice(), 0, i);
            let reply_chars = crate::text::trim_chars(before.as_slice());
            let reply = crate::text::from_chars(reply_chars.as_slice());
            let update_start: usize = i + start.len();
            let update_end: usize = match crate::text::find_chars(v.as_slice(), end.as_slice()) {
                Some(j) => j,
                None => total,
            };
            proof {
                assert(first_at(v@, MEMORY_START@, i as int));
                if contains(v@, MEMORY_END@) {
                    assert(first_at(v@, MEMORY_END@, update_end as int));
                    let j = choose|j: int| first_at(v@, MEMORY_END@, j);
                    if j < update_end {
                        assert(!occurs_at(v@, MEMORY_END@, j));
                    }
                    if update_end < j {
                        assert(!occurs_at(v@, MEMORY_END@, update_end as int));
                    }
                    assert(j == update_end);
                }
            }
            let body = crate::text::slice_range(v.as_slice(), update_start, update_end);
            let body_trimmed = crate::text::trim_chars(body.as_slice());
            proof {
                assert forall|a: int| #[trigger] first_at(v@, MEMORY_START@, a) implies a == i by {
                    if a < i {
                        assert(!occurs_at(v@, MEMORY_START@, a));
                    }
                    if i < a {
                        assert(!occurs_at(v@, MEMORY_START@, i as int));
                    }
                }
                assert(v@.take(i as int) =~= before@);
                if !contains(v@, MEMORY_END@) {
                    assert(v@.skip(update_start as int) =~= body@);
                }
                assert(contains(v@, MEMORY_START@));
            }
            if body_trimmed.len() == 0 {
                (reply, None)
            } else {
                (reply, Some(crate::text::from_chars(body_trimmed.as_slice())))
            }
        },
    }
}

/// The decision taken from the model's answer (an error passes through).
pub open spec fn answer_decision(answer: Result<Seq<char>, Seq<char>>, d: RouterDecision) -> bool {
    match answer {
        Err(_) => d is Passthrough,
        Ok(text) => if contains(trim(text), FORWARD_MARKER@) {
            d is Complex
        } else {
            d matches RouterDecision::Simple { response, memory_update }
                && parsed_reply(trim(text), response@, crate::text::opt_str(memory_update))
        },
    }
}

pub open spec fn answer_text(answer: Result<String, String>) -> Result<Seq<char>, Seq<char>> {
    match answer {
        Ok(s) => Ok(s@),
        Err(e) => Err(e@),
    }
}

/// Whether an answer can be decided on (see `markers_ordered`).
pub open spec fn answer_readable(answer: Result<String, String>) -> bool {
    answer matches Ok(text) ==> markers_ordered(trim(text@))
}

/// Routes a message after the model answered (or failed to).
pub fn decide(answer: Result<String, String>) -> (d: RouterDecision)
    requires
        answer_readable(answer),
    ensures
        answer_decision(answer_text(answer), d),
{
    match answer {
        Err(_) => RouterDecision::Passthrough,
        Ok(text) => {
            let trimmed = crate::text::trim_string(&text);
            if crate::text::str_contains(trimmed.as_str(), FORWARD_MARKER) {
                RouterDecision::Complex
            } else {
                let (response, memory_update) = parse_response(trimmed.as_str());
                RouterDecision::Simple { response, memory_update }
            }
        },
    }
}

/// The sections of the user turn: the memory and the conversation context in
/// fences when not blank, then the message.
pub open spec fn user_sections(message: Seq<char>, memory: Option<&str>, context: Option<&str>) -> Seq<Seq<char>> {
    let mem: Seq<Seq<char>> = match memory {
        Some(m) => if trim(m@).len() > 0 {
            seq!["User memory:\n```\n"@ + trim(m@) + "\n```"@]
        } else {
            Seq::empty()
        },
        None => Seq::empty(),
    };
    let ctx: Seq<Seq<char>> = match context {
        Some(c) => if trim(c@).len() > 0 {
            seq!["Conversation context:\n```\n"@ + trim(c@) + "\n```"@]
        } else {
            Seq::empty()
        },
        None => Seq::empty(),
    };
    mem + ctx + seq!["Message: "@ + message]
}

fn fenced(label: &str, text: &str) -> (r: String)
    ensures
        r@ == label@ + trim(text@) + "\n```"@,
{
    let t = crate::text::trim_str(text);
    crate::text::concat3(label, t.as_str(), "\n```")
}

/// The user turn sent to the model, sections separated by a blank line.
pub fn build_user_content(message: &str, memory: Option<&str>, extra_context: Option<&str>) -> (r: String)
    ensures
        r@ == join(user_sections(message@, memory, extra_context), "\n\n"@),
{
    let mut sections: Vec<String> = Vec::new();
    if let Some(m) = memory {
        if !crate::text::is_blank(m) {
            sections.push(fenced("User memory:\n```\n", m));
        }
    }
    if let Some(c) = extra_context {
        if !crate::text::is_blank(c) {
            sections.push(fenced("Conversation context:\n```\n", c));
        }
    }
    sections.push(crate::text::concat2("Message: ", message));
    proof {
        assert(strs(sections@) =~= user_sections(message@, memory, extra_context));
    }
    join_strings(&sections, "\n\n")
}

/// Joins strings with a separator (`slice::join`).
pub fn join_strings(parts: &Vec<String>, sep: &str) -> (r: String)
    ensures
        r@ == join(strs(parts@), sep@),
{
    let ghost views = strs(parts@);
    let mut r = String::new();
    let mut i: usize = 0;
    while i < parts.len()
        invariant
            i <= parts@.len(),
            views == strs(parts@),
            r@ == join(views.take(i as int), sep@),
        decreases parts@.len() - i,
    {
        if i > 0 {
            r.append(sep);
        }
        r.append(parts[i].as_str());
        i = i + 1;
        proof {
            let p = views.take(i as int);
            assert(p.drop_last() =~= views.take(i - 1));
            assert(p.last() == parts@[i - 1]@);
            if i == 1 {
                assert(join(p, sep@) == p[0]);
                assert(views.take(0) =~= Seq::<Seq<char>>::empty());
                assert(r@ =~= p[0]);
            }
        }
    }
    proof {
        assert(views.take(parts@.len() as int) =~= views);
    }
    r
}

} // verus!
