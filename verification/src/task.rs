//! The `task` tool: what its arguments ask for, which subagent runs it with
//! which budget and tools, which model it uses, and the report it returns.
//! The subagent's own model loop is run by the caller.
use vstd::prelude::*;
use crate::json::{as_str, as_u64, get, json_as_str, json_as_u64, json_get, JsonValue};
use crate::provider::{strings_view, ProviderBook, ProviderConfig};
use crate::text::{chars_of, string_of, str_is, trim, trim_str};

verus! {

/// The kinds of subagent.
#[derive(Debug, Clone, Copy, PartialEq, Eq, Structural)]
pub enum SubagentType {
    /// Read-only searching.
    Explore,
    /// Multi-step work with file and command access.
    General,
    /// Deep research with a large tool budget.
    Researcher,
}

pub open spec fn subagent_type_of(s: Seq<char>) -> SubagentType {
    if s == "explore"@ {
        SubagentType::Explore
    } else if s == "researcher"@ {
        SubagentType::Researcher
    } else {
        SubagentType::General
    }
}

impl SubagentType {
    /// `explore` and `researcher` by name; anything else is `general`.
    pub fn from_str(s: &str) -> (r: SubagentType)
        ensures
            r == subagent_type_of(s@),
    {
        let c = chars_of(s);
        if str_is(c.as_slice(), "explore") {
            SubagentType::Explore
        } else if str_is(c.as_slice(), "researcher") {
            SubagentType::Researcher
        } else {
            SubagentType::General
        }
    }

    pub open spec fn label_spec(self) -> Seq<char> {
        match self {
            SubagentType::Explore => "explore"@,
            SubagentType::General => "general"@,
            SubagentType::Researcher => "researcher"@,
        }
    }

    pub fn label(self) -> (r: &'static str)
        ensures
            r@ == self.label_spec(),
    {
        match self {
            SubagentType::Explore => "explore",
            SubagentType::General => "general",
            SubagentType::Researcher => "researcher",
        }
    }

    /// Tool calls a subagent may make unless the caller sets a budget.
    pub fn default_max_steps(self) -> (r: usize)
        ensures
            r == match self {
                SubagentType::Explore => 30usize,
                SubagentType::General => 50usize,
                SubagentType::Researcher => 80usize,
            },
    {
        match self {
            SubagentType::Explore => 30,
            SubagentType::General => 50,
            SubagentType::Researcher => 80,
        }
    }

    /// Seconds one tool call may take.
    pub fn tool_timeout(self) -> (r: u64)
        ensures
            r == match self {
                SubagentType::Explore => 60u64,
                SubagentType::General => 120u64,
                SubagentType::Researcher => 180u64,
            },
    {
        match self {
            SubagentType::Explore => 60,
            SubagentType::General => 120,
            SubagentType::Researcher => 180,
        }
    }

    /// Seconds the whole subagent run may take.
    pub fn total_timeout(self) -> (r: u64)
        ensures
            r == match self {
                SubagentType::Explore => 300u64,
                SubagentType::General => 600u64,
                SubagentType::Researcher => 1200u64,
            },
    {
        match self {
            SubagentType::Explore => 300,
            SubagentType::General => 600,
            SubagentType::Researcher => 1200,
        }
    }
}

/// The only tools an explore subagent gets.
pub open spec fn explore_allowed(name: Seq<char>) -> bool {
    name == "read_file"@ || name == "glob"@ || name == "grep"@ || name == "check_os_info"@ || name
        == "read_clipboard"@ || name == "web_fetch"@ || name == "web_search"@
}

pub fn is_explore_allowed(name: &str) -> (r: bool)
    ensures
        r == explore_allowed(name@),
{
    let c = chars_of(name);
    let n = c.as_slice();
    str_is(n, "read_file") || str_is(n, "glob") || str_is(n, "grep") || str_is(n, "check_os_info")
        || str_is(n, "read_clipboard") || str_is(n, "web_fetch") || str_is(n, "web_search")
}

/// The tools general and researcher subagents may not call: nested agents and
/// research, skills, alarms, memes, images and divination.
pub open spec fn general_excluded(name: Seq<char>) -> bool {
    name == "task"@ || name == "task_agent"@ || name == "deep_research"@ || name
        == "linux_input_method_diagnose"@ || name == "deep_diagnose"@ || name
        == "deep_research_linux_game_compatibility"@ || name == "load_skill"@ || name
        == "set_alarm"@ || name == "list_alarms"@ || name == "cancel_alarm"@ || name
        == "search_meme"@ || name == "show_meme"@ || name == "add_meme"@ || name
        == "update_meme"@ || name == "delete_meme"@ || name == "generate_image"@ || name
        == "print_image"@ || name == "search_web_images"@ || name == "xuanxue_pick"@ || name
        == "xuanxue_divine"@ || name == "draw_zhouyi_hexagram"@ || name == "draw_tarot_card"@
        || name == "draw_fortune_lot"@ || name == "roll_dice"@
}

pub fn is_general_excluded(name: &str) -> (r: bool)
    ensures
        r == general_excluded(name@),
{
    let c = chars_of(name);
    let n = c.as_slice();
    str_is(n, "task") || str_is(n, "task_agent") || str_is(n, "deep_research") || str_is(
        n,
        "linux_input_method_diagnose",
    ) || str_is(n, "deep_diagnose") || str_is(n, "deep_research_linux_game_compatibility")
        || str_is(n, "load_skill") || str_is(n, "set_alarm") || str_is(n, "list_alarms")
        || str_is(n, "cancel_alarm") || str_is(n, "search_meme") || str_is(n, "show_meme")
        || str_is(n, "add_meme") || str_is(n, "update_meme") || str_is(n, "delete_meme")
        || str_is(n, "generate_image") || str_is(n, "print_image") || str_is(
        n,
        "search_web_images",
    ) || str_is(n, "xuanxue_pick") || str_is(n, "xuanxue_divine") || str_is(
        n,
        "draw_zhouyi_hexagram",
    ) || str_is(n, "draw_tarot_card") || str_is(n, "draw_fortune_lot") || str_is(n, "roll_dice")
}

/// Whether a subagent of this kind may use a tool of the main registry: an
/// explore subagent only its read-only tools, the others all but the excluded.
pub open spec fn subagent_may_use(t: SubagentType, name: Seq<char>) -> bool {
    match t {
        SubagentType::Explore => explore_allowed(name),
        _ => !general_excluded(name),
    }
}

pub fn subagent_may_use_tool(t: SubagentType, name: &str) -> (r: bool)
    ensures
        r == subagent_may_use(t, name@),
{
    match t {
        SubagentType::Explore => is_explore_allowed(name),
        _ => !is_general_excluded(name),
    }
}

/// A subagent's tools: those of the main registry it may use, in order.
pub open spec fn subagent_tools_spec(t: SubagentType, names: Seq<Seq<char>>) -> Seq<Seq<char>> {
    names.filter(|n: Seq<char>| subagent_may_use(t, n))
}

pub fn subagent_tools(t: SubagentType, names: &[String]) -> (r: Vec<String>)
    ensures
        strings_view(r@) == subagent_tools_spec(t, strings_view(names@)),
{
    let mut out: Vec<String> = Vec::new();
    let mut i: usize = 0;
    while i < names.len()
        invariant
            i <= names.len(),
            strings_view(out@) == subagent_tools_spec(t, strings_view(names@.take(i as int))),
        decreases names.len() - i,
    {
        proof {
            assert(strings_view(names@.take(i + 1)) =~= strings_view(names@.take(i as int)).push(
                names@[i as int]@,
            ));
            crate::task::lemma_filter_push(strings_view(names@.take(i as int)), names@[i as int]@, t);
        }
        if subagent_may_use_tool(t, names[i].as_str()) {
            let ghost before = out@;
            out.push(names[i].clone());
            proof {
                assert(strings_view(out@) =~= strings_view(before).push(names@[i as int]@));
            }
        }
        i += 1;
    }
    assert(names@.take(names.len() as int) =~= names@);
    out
}

proof fn lemma_filter_push(s: Seq<Seq<char>>, x: Seq<char>, t: SubagentType)
    ensures
        s.push(x).filter(|n: Seq<char>| subagent_may_use(t, n)) == if subagent_may_use(t, x) {
            s.filter(|n: Seq<char>| subagent_may_use(t, n)).push(x)
        } else {
            s.filter(|n: Seq<char>| subagent_may_use(t, n))
        },
{
    let f = |n: Seq<char>| subagent_may_use(t, n);
    assert(s.push(x).drop_last() =~= s);
    reveal(Seq::filter);
}

// ---------------------------------------------------------------- arguments

/// What a `task` call asks for.
#[derive(Debug, Clone)]
pub struct TaskRequest {
    /// The trimmed short description shown while it runs.
    pub description: String,
    /// The trimmed full prompt for the subagent.
    pub prompt: String,
    pub subagent_type: SubagentType,
    /// The tool call budget.
    pub max_steps: usize,
    pub tool_timeout: u64,
    pub total_timeout: u64,
    /// The model asked for, as given.
    pub model: Option<String>,
}

/// Why a `task` call was refused.
#[derive(Debug, Clone, Copy, PartialEq, Eq, Structural)]
pub enum TaskArgError {
    MissingDescription,
    MissingPrompt,
}

/// The trimmed text of a string argument, empty when absent or not a string.
pub open spec fn text_arg(args: JsonValue, key: Seq<char>) -> Seq<char> {
    match as_str(get(args, key)) {
        Some(s) => trim(s),
        None => seq![],
    }
}

fn text_arg_exec(args: &JsonValue, key: &str) -> (r: Vec<char>)
    ensures
        r@ == text_arg(*args, key@),
{
    match json_as_str(json_get(args, key)) {
        Some(s) => trim_str(s),
        None => Vec::new(),
    }
}

pub open spec fn opt_view(o: Option<String>) -> Option<Seq<char>> {
    match o {
        Some(s) => Some(s@),
        None => None,
    }
}

/// Reads a `task` call: a description and a prompt are required (after
/// trimming); the kind defaults to `general`; `max_steps` overrides the kind's
/// budget; the timeouts are the kind's.
pub fn parse_task_args(args: &JsonValue) -> (r: Result<TaskRequest, TaskArgError>)
    ensures
        text_arg(*args, "description"@).len() == 0 ==> r == Err::<TaskRequest, TaskArgError>(
            TaskArgError::MissingDescription,
        ),
        text_arg(*args, "description"@).len() > 0 && text_arg(*args, "prompt"@).len() == 0 ==> r
            == Err::<TaskRequest, TaskArgError>(TaskArgError::MissingPrompt),
        text_arg(*args, "description"@).len() > 0 && text_arg(*args, "prompt"@).len() > 0 ==> (
        r matches Ok(t) && {
            let kind = match as_str(get(*args, "subagent_type"@)) {
                Some(s) => subagent_type_of(s),
                None => SubagentType::General,
            };
            &&& t.description@ == text_arg(*args, "description"@)
            &&& t.prompt@ == text_arg(*args, "prompt"@)
            &&& t.subagent_type == kind
            &&& t.max_steps == match as_u64(get(*args, "max_steps"@)) {
                Some(n) => n as usize,
                None => match kind {
                    SubagentType::Explore => 30usize,
                    SubagentType::General => 50usize,
                    SubagentType::Researcher => 80usize,
                },
            }
            &&& t.tool_timeout == match kind {
                SubagentType::Explore => 60u64,
                SubagentType::General => 120u64,
                SubagentType::Researcher => 180u64,
            }
            &&& t.total_timeout == match kind {
                SubagentType::Explore => 300u64,
                SubagentType::General => 600u64,
                SubagentType::Researcher => 1200u64,
            }
            &&& opt_view(t.model) == as_str(get(*args, "model"@))
        }),
{
    let description = text_arg_exec(args, "description");
    if description.len() == 0 {
        return Err(TaskArgError::MissingDescription);
    }
    let prompt = text_arg_exec(args, "prompt");
    if prompt.len() == 0 {
        return Err(TaskArgError::MissingPrompt);
    }
    let kind = match json_as_str(json_get(args, "subagent_type")) {
        Some(s) => SubagentType::from_str(s),
        None => SubagentType::General,
    };
    let max_steps = match json_as_u64(json_get(args, "max_steps")) {
        Some(n) => n as usize,
        None => kind.default_max_steps(),
    };
    let model = match json_as_str(json_get(args, "model")) {
        Some(s) => Some(s.to_string()),
        None => None,
    };
    Ok(TaskRequest {
        description: string_of(description.as_slice()),
        prompt: string_of(prompt.as_slice()),
        subagent_type: kind,
        max_steps,
        tool_timeout: kind.tool_timeout(),
        total_timeout: kind.total_timeout(),
        model,
    })
}

} // verus!

verus! {

// ---------------------------------------------------------------- the report

/// How a subagent run ended.
#[derive(Debug)]
pub enum TaskOutcome {
    /// The run failed with this error.
    Failed(String),
    /// The run took longer than its total timeout.
    TimedOut,
    /// The run finished; whether it used up its budget, and its final text.
    Finished { budget_reached: bool, content: String },
}

/// A member whose value is a string.
pub open spec fn str_entry(e: (String, JsonValue), key: Seq<char>, text: Seq<char>) -> bool {
    e.0@ == key && e.1 is String && e.1->String_0@ == text
}

fn str_member(key: &str, text: &str) -> (r: (String, JsonValue))
    ensures
        str_entry(r, key@, text@),
{
    (key.to_string(), JsonValue::String(text.to_string()))
}

/// The state a report names.
pub open spec fn outcome_state(o: TaskOutcome) -> Seq<char> {
    match o {
        TaskOutcome::Failed(_) => "error"@,
        TaskOutcome::TimedOut => "timeout"@,
        TaskOutcome::Finished { budget_reached, .. } => if budget_reached {
            "budget_reached"@
        } else {
            "completed"@
        },
    }
}

/// What `task` returns to the main agent: `ok`, `kind` (`task`), the
/// subagent's kind, the description, the state, then the error (for a failure
/// or a timeout) or the trimmed final text, and the run's statistics.
pub open spec fn task_report_ok(
    r: JsonValue,
    kind: SubagentType,
    description: Seq<char>,
    total_timeout: u64,
    outcome: TaskOutcome,
    stats: JsonValue,
) -> bool {
    r is Object && {
        let es = r->Object_0@;
        let finished = outcome is Finished;
        &&& es.len() == 7
        &&& es[0].0@ == "ok"@ && es[0].1 == JsonValue::Bool(finished)
        &&& str_entry(es[1], "kind"@, "task"@)
        &&& str_entry(es[2], "subagent_type"@, kind.label_spec())
        &&& str_entry(es[3], "description"@, description)
        &&& str_entry(es[4], "state"@, outcome_state(outcome))
        &&& match outcome {
            TaskOutcome::Failed(e) => str_entry(es[5], "error"@, e@),
            TaskOutcome::TimedOut => str_entry(
                es[5],
                "error"@,
                "subagent timed out after "@ + crate::numbers::decimal(total_timeout as nat) + "s"@,
            ),
            TaskOutcome::Finished { content, .. } => str_entry(es[5], "result"@, trim(content@)),
        }
        &&& es[6].0@ == "stats"@ && es[6].1 == stats
    }
}

/// The report of a subagent run. `stats` are the run's public statistics (an
/// empty run's when it failed or timed out).
pub fn task_report(
    kind: SubagentType,
    description: &str,
    total_timeout: u64,
    outcome: TaskOutcome,
    stats: JsonValue,
) -> (r: JsonValue)
    ensures
        task_report_ok(r, kind, description@, total_timeout, outcome, stats),
{
    let ghost o = outcome;
    let finished = match &outcome {
        TaskOutcome::Finished { .. } => true,
        _ => false,
    };
    let mut es: Vec<(String, JsonValue)> = Vec::new();
    es.push(("ok".to_string(), JsonValue::Bool(finished)));
    es.push(str_member("kind", "task"));
    es.push(str_member("subagent_type", kind.label()));
    es.push(str_member("description", description));
    let last = match outcome {
        TaskOutcome::Failed(e) => {
            es.push(str_member("state", "error"));
            ("error".to_string(), JsonValue::String(e))
        },
        TaskOutcome::TimedOut => {
            es.push(str_member("state", "timeout"));
            let mut m = chars_of("subagent timed out after ");
            let d = crate::numbers::u64_decimal(total_timeout);
            crate::text::extend_chars(&mut m, d.as_slice());
            crate::text::extend_str(&mut m, "s");
            ("error".to_string(), JsonValue::String(string_of(m.as_slice())))
        },
        TaskOutcome::Finished { budget_reached, content } => {
            if budget_reached {
                es.push(str_member("state", "budget_reached"));
            } else {
                es.push(str_member("state", "completed"));
            }
            ("result".to_string(), JsonValue::String(string_of(trim_str(content.as_str()).as_slice())))
        },
    };
    es.push(last);
    es.push(("stats".to_string(), stats));
    JsonValue::Object(es)
}

/// The error `task` reports for its arguments.
pub fn task_arg_message(e: TaskArgError) -> (r: &'static str)
    ensures
        r@ == match e {
            TaskArgError::MissingDescription => "description is required"@,
            TaskArgError::MissingPrompt => "prompt is required"@,
        },
{
    match e {
        TaskArgError::MissingDescription => "description is required",
        TaskArgError::MissingPrompt => "prompt is required",
    }
}

} // verus!

verus! {

// ---------------------------------------------------------------- the model

/// Why the model a `task` call names cannot be used.
#[derive(Debug, Clone)]
pub enum SubagentModelError {
    /// `provider/` with nothing after the slash.
    EmptyModel,
    /// No configured provider has that id (or, without one, the active id).
    UnknownProvider,
    /// The provider does not list this model.
    UnknownModel(String),
}

/// The first `/` in a text.
pub open spec fn slash_at(s: Seq<char>, i: int) -> bool {
    0 <= i < s.len() && s[i] == '/' && forall|j: int| 0 <= j < i ==> s[j] != '/'
}

/// A model argument split into an optional provider id and a model name: at
/// the first `/`, both sides trimmed.
pub open spec fn split_model(m: Seq<char>) -> (Option<Seq<char>>, Seq<char>) {
    if exists|i: int| slash_at(m, i) {
        let i = choose|i: int| slash_at(m, i);
        (Some(trim(m.take(i))), trim(m.skip(i + 1)))
    } else {
        (None, m)
    }
}

/// What a model argument selects.
pub ghost enum ModelChoice {
    /// No model named: the active one.
    Active,
    /// The provider at this index, with this model.
    Use(int, Seq<char>),
    EmptyModel,
    UnknownProvider,
    UnknownModel(Seq<char>),
}

/// The provider a subagent uses, when the call names a model: the named
/// provider (the active one when none is named), which must list the model.
pub open spec fn model_choice(book: ProviderBook, model_arg: Option<Seq<char>>) -> ModelChoice {
    let m = match model_arg {
        Some(a) => trim(a),
        None => seq![],
    };
    if m.len() == 0 {
        ModelChoice::Active
    } else {
        let (pid, name) = split_model(m);
        let id = match pid {
            Some(p) => p,
            None => book.active_provider@,
        };
        if name.len() == 0 {
            ModelChoice::EmptyModel
        } else {
            match crate::provider::find_provider(crate::provider::providers_view(book.providers@), id) {
                None => ModelChoice::UnknownProvider,
                Some(k) => if book.providers@[k]@.models.contains(name) {
                    ModelChoice::Use(k, name)
                } else {
                    ModelChoice::UnknownModel(name)
                },
            }
        }
    }
}

/// Picks the provider and model a subagent runs with.
pub fn subagent_model(book: &ProviderBook, model_arg: Option<&str>) -> (r: Result<Option<ProviderConfig>, SubagentModelError>)
    ensures
        match (r, model_choice(*book, match model_arg { Some(a) => Some(a@), None => None })) {
            (Ok(None), ModelChoice::Active) => true,
            (Ok(Some(p)), ModelChoice::Use(k, name)) => {
                let q = book.providers@[k]@;
                &&& p@.id == q.id
                &&& p@.display_name == q.display_name
                &&& p@.base_url == q.base_url
                &&& p@.protocol == q.protocol
                &&& p@.api_key == q.api_key
                &&& p@.models == q.models
                &&& p@.default_model == name
            },
            (Err(SubagentModelError::EmptyModel), ModelChoice::EmptyModel) => true,
            (Err(SubagentModelError::UnknownProvider), ModelChoice::UnknownProvider) => true,
            (Err(SubagentModelError::UnknownModel(n)), ModelChoice::UnknownModel(name)) => n@ == name,
            _ => false,
        },
{
    let m = match model_arg {
        Some(a) => trim_str(a),
        None => Vec::new(),
    };
    if m.len() == 0 {
        return Ok(None);
    }
    let (pid, name): (Option<Vec<char>>, Vec<char>) = match crate::text::find_char(m.as_slice(), '/') {
        Some(i) => {
            proof {
                assert(slash_at(m@, i as int));
                let c = choose|j: int| slash_at(m@, j);
                assert(!(c < i as int));
                assert(!(c > i as int));
            }
            let left = crate::text::slice_chars(m.as_slice(), 0, i);
            let right = crate::text::slice_chars(m.as_slice(), i + 1, m.len());
            assert(left@ =~= m@.take(i as int));
            assert(right@ =~= m@.skip(i + 1));
            (Some(crate::text::trim_chars(left.as_slice())), crate::text::trim_chars(right.as_slice()))
        },
        None => {
            proof {
                assert forall|j: int| !slash_at(m@, j) by {
                    if slash_at(m@, j) {
                        assert(crate::text::has_char(m@, '/'));
                    }
                }
            }
            (None, m)
        },
    };
    if name.len() == 0 {
        return Err(SubagentModelError::EmptyModel);
    }
    let id: Vec<char> = match pid {
        Some(p) => p,
        None => chars_of(book.active_provider.as_str()),
    };
    let ids = string_of(id.as_slice());
    let k = match crate::provider::find_provider_index(&book.providers, ids.as_str()) {
        Some(k) => k,
        None => {
            return Err(SubagentModelError::UnknownProvider);
        },
    };
    let models = &book.providers[k].models;
    let mut j: usize = 0;
    let mut found = false;
    while j < models.len()
        invariant
            j <= models.len(),
            found ==> exists|t: int| 0 <= t < j && (#[trigger] models@[t])@ == name@,
            !found ==> forall|t: int| 0 <= t < j ==> (#[trigger] models@[t])@ != name@,
        decreases models.len() - j,
    {
        if crate::text::seq_eq(chars_of(models[j].as_str()).as_slice(), name.as_slice()) {
            found = true;
        }
        j += 1;
    }
    let ghost q = book.providers@[k as int]@;
    proof {
        assert(q.models == strings_view(models@));
    }
    if !found {
        proof {
            assert forall|t: int| 0 <= t < q.models.len() implies q.models[t] != name@ by {
                assert(q.models[t] == models@[t]@);
            }
        }
        return Err(SubagentModelError::UnknownModel(string_of(name.as_slice())));
    }
    proof {
        let t = choose|t: int| 0 <= t < j && (#[trigger] models@[t])@ == name@;
        assert(q.models[t] == name@);
    }
    let mut p = book.providers[k].duplicate();
    p.default_model = string_of(name.as_slice());
    Ok(Some(p))
}

} // verus!
