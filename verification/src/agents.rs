//! Named subagents the model creates, talks to and removes. Each agent has a
//! role and remembers its recent conversation; the definitions are saved so
//! they survive a restart. The model clients themselves are the caller's.
use vstd::prelude::*;
use crate::json::{as_str, get, json_as_str, json_get, JsonNumber, JsonValue};
use crate::text::{
    char_is_ascii_alphabetic, char_is_ascii_alphanumeric, chars_of, extend_str, is_ascii_alphabetic,
    is_ascii_alphanumeric, seq_eq, string_of, trim, trim_str,
};

verus! {

/// At most this many agents can be created.
pub const MAX_AGENTS: usize = 16;

/// An agent remembers this many exchanges (a message and its reply each).
pub const MAX_HISTORY_TURNS: usize = 20;

/// A saved agent definition.
#[derive(Debug, Clone)]
pub struct AgentDef {
    pub name: String,
    pub role: String,
    /// When it was created, as RFC 3339 text.
    pub created_at: String,
}

/// An agent: its definition and its conversation as `(role, text)` messages.
#[derive(Debug)]
pub struct Agent {
    pub def: AgentDef,
    pub history: Vec<(String, String)>,
}

/// The agents, each name at most once.
#[derive(Debug)]
pub struct AgentRoster {
    pub agents: Vec<Agent>,
}

pub struct AgentView {
    pub name: Seq<char>,
    pub role: Seq<char>,
    pub created_at: Seq<char>,
    pub history: Seq<(Seq<char>, Seq<char>)>,
}

pub open spec fn history_view(h: Seq<(String, String)>) -> Seq<(Seq<char>, Seq<char>)> {
    h.map_values(|m: (String, String)| (m.0@, m.1@))
}

pub open spec fn agent_view(a: Agent) -> AgentView {
    AgentView {
        name: a.def.name@,
        role: a.def.role@,
        created_at: a.def.created_at@,
        history: history_view(a.history@),
    }
}

impl View for AgentRoster {
    type V = Seq<AgentView>;

    open spec fn view(&self) -> Seq<AgentView> {
        self.agents@.map_values(|a: Agent| agent_view(a))
    }
}

/// No two agents share a name.
pub open spec fn unique_names(v: Seq<AgentView>) -> bool {
    forall|i: int, j: int| 0 <= i < j < v.len() ==> v[i].name != v[j].name
}

/// Where the agent with this name is.
pub open spec fn index_of(v: Seq<AgentView>, name: Seq<char>) -> Option<int> {
    if exists|i: int| 0 <= i < v.len() && v[i].name == name {
        Some(choose|i: int| 0 <= i < v.len() && v[i].name == name)
    } else {
        None
    }
}

/// A freshly loaded agent: no conversation yet, and one of the definitions.
pub open spec fn loaded_from(a: AgentView, defs: Seq<AgentDef>) -> bool {
    a.history.len() == 0 && exists|k: int| 0 <= k < defs.len() && defs[k].name@ == a.name
}

impl AgentRoster {
    pub open spec fn wf(&self) -> bool {
        unique_names(self@)
    }

    pub fn new() -> (r: AgentRoster)
        ensures
            r@.len() == 0,
            r.wf(),
    {
        AgentRoster { agents: Vec::new() }
    }

    fn find(&self, name: &str) -> (r: Option<usize>)
        requires
            self.wf(),
        ensures
            match r {
                Some(i) => i < self@.len() && self@[i as int].name == name@ && index_of(self@, name@) == Some(i as int),
                None => index_of(self@, name@) is None,
            },
    {
        let n = chars_of(name);
        let mut i: usize = 0;
        while i < self.agents.len()
            invariant
                i <= self.agents.len(),
                n@ == name@,
                self.wf(),
                forall|j: int| 0 <= j < i ==> self@[j].name != name@,
            decreases self.agents.len() - i,
        {
            if seq_eq(chars_of(self.agents[i].def.name.as_str()).as_slice(), n.as_slice()) {
                proof {
                    assert(self@[i as int].name == name@);
                    let c = choose|k: int| 0 <= k < self@.len() && self@[k].name == name@;
                    assert(c == i as int);
                }
                return Some(i);
            }
            i += 1;
        }
        None
    }

    /// Whether an agent has this name.
    pub fn contains(&self, name: &str) -> (r: bool)
        requires
            self.wf(),
        ensures
            r == (index_of(self@, name@) is Some),
    {
        self.find(name).is_some()
    }

    /// The roster read back from saved definitions, in order; a later
    /// definition with a name seen before replaces the earlier one.
    pub fn load(defs: &[AgentDef]) -> (r: AgentRoster)
        ensures
            r.wf(),
            forall|k: int| 0 <= k < defs@.len() ==> index_of(r@, #[trigger] defs@[k].name@) is Some,
            forall|t: int| 0 <= t < r@.len() ==> loaded_from(r@[t], defs@),
    {
        let mut r = AgentRoster::new();
        let mut i: usize = 0;
        while i < defs.len()
            invariant
                i <= defs.len(),
                r.wf(),
                forall|k: int| 0 <= k < i ==> index_of(r@, #[trigger] defs@[k].name@) is Some,
                forall|t: int| 0 <= t < r@.len() ==> loaded_from(#[trigger] r@[t], defs@),
            decreases defs.len() - i,
        {
            let ghost before = r@;
            let d = defs[i].duplicate();
            match r.find(defs[i].name.as_str()) {
                Some(j) => {
                    r.agents.set(j, Agent { def: d, history: Vec::new() });
                    proof {
                        assert forall|a: int, b: int| 0 <= a < b < r@.len() implies r@[a].name != r@[b].name by {
                            assert(r@[a].name == before[a].name);
                            assert(r@[b].name == before[b].name);
                        }
                        assert forall|k: int| 0 <= k < i + 1 implies index_of(r@, #[trigger] defs@[k].name@) is Some by {
                            if k < i {
                                let t = index_of(before, defs@[k].name@)->0;
                                assert(r@[t].name == before[t].name);
                            } else {
                                assert(r@[j as int].name == defs@[k].name@);
                            }
                        }
                        assert forall|t: int| 0 <= t < r@.len() implies loaded_from(#[trigger] r@[t], defs@) by {
                            if t == j {
                                assert(defs@[i as int].name@ == r@[t].name);
                            } else {
                                assert(r@[t] == before[t]);
                            }
                        }
                    }
                },
                None => {
                    r.agents.push(Agent { def: d, history: Vec::new() });
                    proof {
                        assert forall|a: int, b: int| 0 <= a < b < r@.len() implies r@[a].name != r@[b].name by {
                            if b == r@.len() - 1 {
                                if r@[a].name == r@[b].name {
                                    assert(before[a].name == defs@[i as int].name@);
                                }
                            } else {
                                assert(r@[a] == before[a]);
                                assert(r@[b] == before[b]);
                            }
                        }
                        assert forall|k: int| 0 <= k < i + 1 implies index_of(r@, #[trigger] defs@[k].name@) is Some by {
                            if k < i {
                                let t = index_of(before, defs@[k].name@)->0;
                                assert(r@[t] == before[t]);
                            } else {
                                assert(r@[r@.len() - 1].name == defs@[k].name@);
                            }
                        }
                        assert forall|t: int| 0 <= t < r@.len() implies loaded_from(#[trigger] r@[t], defs@) by {
                            if t == r@.len() - 1 {
                                assert(defs@[i as int].name@ == r@[t].name);
                            } else {
                                assert(r@[t] == before[t]);
                            }
                        }
                    }
                },
            }
            i += 1;
        }
        r
    }
}

impl AgentDef {
    /// A copy with the same contents.
    pub fn duplicate(&self) -> (r: AgentDef)
        ensures
            r.name@ == self.name@,
            r.role@ == self.role@,
            r.created_at@ == self.created_at@,
    {
        AgentDef { name: self.name.clone(), role: self.role.clone(), created_at: self.created_at.clone() }
    }
}

} // verus!

verus! {

/// Why an agent operation was refused.
#[derive(Debug, Clone)]
pub enum AgentError {
    /// A required argument is missing or blank.
    MissingArg(String),
    /// Names start with an ASCII letter and hold only ASCII letters, digits
    /// and `_`, at most 32 of them.
    InvalidName(String),
    /// [`MAX_AGENTS`] agents exist already.
    TooMany,
    /// No agent has this name.
    NotFound(String),
}

/// The roster after `ensure`: an agent with the name takes the new role
/// (keeping its history and creation time); else, unless the roster is full,
/// the new agent is appended.
pub open spec fn ensured(v: Seq<AgentView>, name: Seq<char>, role: Seq<char>, created_at: Seq<char>) -> Seq<AgentView> {
    match index_of(v, name) {
        Some(i) => v.update(i, AgentView { role, ..v[i] }),
        None => if v.len() >= MAX_AGENTS {
            v
        } else {
            v.push(AgentView { name, role, created_at, history: seq![] })
        },
    }
}

/// The roster after removing a name.
pub open spec fn removed(v: Seq<AgentView>, name: Seq<char>) -> Seq<AgentView> {
    match index_of(v, name) {
        Some(i) => v.remove(i),
        None => v,
    }
}

/// The last `n` messages.
pub open spec fn last_n<T>(h: Seq<T>, n: nat) -> Seq<T> {
    if h.len() > n {
        h.skip(h.len() - n)
    } else {
        h
    }
}

/// What the agent is sent for a message: its history with the message added,
/// cut to the last [`MAX_HISTORY_TURNS`] exchanges.
pub open spec fn request_history(h: Seq<(Seq<char>, Seq<char>)>, message: Seq<char>) -> Seq<(Seq<char>, Seq<char>)> {
    last_n(h.push(("user"@, message)), 2 * MAX_HISTORY_TURNS as nat)
}

/// The history after an exchange, cut the same way.
pub open spec fn after_exchange(h: Seq<(Seq<char>, Seq<char>)>, message: Seq<char>, reply: Seq<char>) -> Seq<(Seq<char>, Seq<char>)> {
    last_n(h.push(("user"@, message)).push(("assistant"@, reply)), 2 * MAX_HISTORY_TURNS as nat)
}

fn keep_last(h: Vec<(String, String)>, n: usize) -> (r: Vec<(String, String)>)
    ensures
        history_view(r@) == last_n(history_view(h@), n as nat),
{
    if h.len() <= n {
        return h;
    }
    let start = h.len() - n;
    let mut h = h;
    let mut out: Vec<(String, String)> = Vec::new();
    let mut rev: Vec<(String, String)> = Vec::new();
    let ghost all = h@;
    while h.len() > start
        invariant
            start <= h.len() <= all.len(),
            h@ == all.take(h.len() as int),
            start == all.len() - n,
            rev@.len() == all.len() - h.len(),
            forall|k: int| 0 <= k < rev@.len() ==> rev@[k] == all[all.len() - 1 - k],
        decreases h.len(),
    {
        let ghost before = h@;
        let x = h.pop().unwrap();
        proof {
            assert(before == all.take(before.len() as int));
            assert(x == all[before.len() - 1]);
            assert(h@ =~= all.take(h@.len() as int));
        }
        rev.push(x);
    }
    while rev.len() > 0
        invariant
            rev@.len() + out@.len() == n,
            n <= all.len(),
            forall|k: int| 0 <= k < rev@.len() ==> rev@[k] == all[all.len() - 1 - k],
            out@ == all.subrange(all.len() - n, all.len() - n + out@.len()),
        decreases rev.len(),
    {
        let ghost before = rev@;
        let ghost ob = out@;
        let x = rev.pop().unwrap();
        proof {
            assert(x == all[all.len() - 1 - (before.len() - 1)]);
        }
        out.push(x);
        proof {
            assert(out@ =~= all.subrange(all.len() - n, all.len() - n + out@.len()));
        }
    }
    proof {
        assert(out@ =~= all.skip(all.len() - n));
        assert(history_view(out@) =~= history_view(all).skip(all.len() - n));
    }
    out
}

impl AgentRoster {
    /// Creates or updates the named agent: an existing one takes the new role,
    /// else a new one is added, refused when the roster is full. Says whether
    /// an agent was created; on success the definitions are saved again.
    pub fn ensure(&mut self, name: &str, role: &str, created_at: String) -> (r: Result<bool, AgentError>)
        requires
            old(self).wf(),
        ensures
            final(self).wf(),
            final(self)@ == ensured(old(self)@, name@, role@, created_at@),
            match r {
                Ok(created) => created == (index_of(old(self)@, name@) is None),
                Err(e) => e is TooMany && index_of(old(self)@, name@) is None && old(self)@.len() >= MAX_AGENTS,
            },
    {
        match self.find(name) {
            Some(i) => {
                let ghost before = self@;
                let mut a = self.agents.remove(i);
                a.def.role = role.to_string();
                self.agents.insert(i, a);
                proof {
                    assert(self@ =~= before.update(i as int, AgentView { role: role@, ..before[i as int] }));
                    assert forall|x: int, y: int| 0 <= x < y < self@.len() implies self@[x].name != self@[y].name by {
                        assert(self@[x].name == before[x].name);
                        assert(self@[y].name == before[y].name);
                    }
                }
                return Ok(false);
            },
            None => {},
        }
        if self.agents.len() >= MAX_AGENTS {
            return Err(AgentError::TooMany);
        }
        let ghost before = self@;
        self.agents.push(Agent {
            def: AgentDef { name: name.to_string(), role: role.to_string(), created_at },
            history: Vec::new(),
        });
        proof {
            assert(history_view(self.agents@.last().history@) =~= Seq::<(Seq<char>, Seq<char>)>::empty());
            assert(self@ =~= before.push(AgentView { name: name@, role: role@, created_at: created_at@, history: seq![] }));
            assert forall|a: int, b: int| 0 <= a < b < self@.len() implies self@[a].name != self@[b].name by {
                if b == self@.len() - 1 && self@[a].name == name@ {
                    assert(before[a].name == name@);
                }
            }
        }
        Ok(true)
    }

    /// Removes the agent with this name; says whether there was one.
    pub fn remove(&mut self, name: &str) -> (r: bool)
        requires
            old(self).wf(),
        ensures
            final(self).wf(),
            final(self)@ == removed(old(self)@, name@),
            r == (index_of(old(self)@, name@) is Some),
    {
        match self.find(name) {
            Some(i) => {
                let ghost before = self@;
                let _ = self.agents.remove(i);
                proof {
                    assert(self@ =~= before.remove(i as int));
                    assert forall|a: int, b: int| 0 <= a < b < self@.len() implies self@[a].name != self@[b].name by {
                        let a0 = if a < i { a } else { a + 1 };
                        let b0 = if b < i { b } else { b + 1 };
                        assert(self@[a] == before[a0]);
                        assert(self@[b] == before[b0]);
                    }
                }
                true
            },
            None => false,
        }
    }

    /// What an agent is sent for a message: its role's system prompt, and its
    /// history with the message, cut to the last exchanges.
    pub fn conversation(&self, name: &str, message: &str) -> (r: Result<(String, Vec<(String, String)>), AgentError>)
        requires
            self.wf(),
        ensures
            match (r, index_of(self@, name@)) {
                (Ok((prompt, h)), Some(i)) => prompt@ == agent_prompt(self@[i].role) && history_view(h@)
                    == request_history(self@[i].history, message@),
                (Err(AgentError::NotFound(n)), None) => n@ == name@,
                _ => false,
            },
    {
        match self.find(name) {
            Some(i) => {
                let a = &self.agents[i];
                let mut h: Vec<(String, String)> = Vec::new();
                let mut k: usize = 0;
                while k < a.history.len()
                    invariant
                        k <= a.history.len(),
                        history_view(h@) == history_view(a.history@.take(k as int)),
                    decreases a.history.len() - k,
                {
                    let ghost o = h@;
                    h.push((a.history[k].0.clone(), a.history[k].1.clone()));
                    proof {
                        assert(history_view(h@) =~= history_view(o).push((a.history@[k as int].0@, a.history@[k as int].1@)));
                        assert(a.history@.take(k + 1) =~= a.history@.take(k as int).push(a.history@[k as int]));
                        assert(history_view(a.history@.take(k + 1)) =~= history_view(a.history@.take(k as int)).push(
                            (a.history@[k as int].0@, a.history@[k as int].1@),
                        ));
                    }
                    k += 1;
                }
                assert(a.history@.take(a.history.len() as int) =~= a.history@);
                h.push(("user".to_string(), message.to_string()));
                let ghost hh = history_view(h@);
                assert(hh =~= agent_view(*a).history.push(("user"@, message@)));
                let kept = keep_last(h, 2 * MAX_HISTORY_TURNS);
                Ok((agent_system_prompt(a.def.role.as_str()), kept))
            },
            None => Err(AgentError::NotFound(name.to_string())),
        }
    }

    /// Remembers an exchange with an agent, keeping the last exchanges; no
    /// change when the agent is gone.
    pub fn record_exchange(&mut self, name: &str, message: &str, reply: &str)
        requires
            old(self).wf(),
        ensures
            final(self).wf(),
            final(self)@.len() == old(self)@.len(),
            match index_of(old(self)@, name@) {
                Some(i) => final(self)@ == old(self)@.update(
                    i,
                    AgentView {
                        history: after_exchange(old(self)@[i].history, message@, reply@),
                        ..old(self)@[i]
                    },
                ),
                None => final(self)@ == old(self)@,
            },
    {
        match self.find(name) {
            Some(i) => {
                let ghost before = self@;
                let mut taken: Vec<(String, String)> = Vec::new();
                std::mem::swap(&mut taken, &mut self.agents[i].history);
                let ghost t0 = taken@;
                taken.push(("user".to_string(), message.to_string()));
                taken.push(("assistant".to_string(), reply.to_string()));
                proof {
                    assert(history_view(taken@) =~= history_view(t0).push(("user"@, message@)).push(
                        ("assistant"@, reply@),
                    ));
                    assert(history_view(t0) == before[i as int].history);
                }
                let kept = keep_last(taken, 2 * MAX_HISTORY_TURNS);
                self.agents[i].history = kept;
                proof {
                    assert(agent_view(self.agents@[i as int]) == AgentView {
                        history: after_exchange(before[i as int].history, message@, reply@),
                        ..before[i as int]
                    });
                    assert(self@ =~= before.update(
                        i as int,
                        AgentView { history: after_exchange(before[i as int].history, message@, reply@), ..before[i as int] },
                    ));
                    assert forall|a: int, b: int| 0 <= a < b < self@.len() implies self@[a].name != self@[b].name by {
                        assert(self@[a].name == before[a].name);
                        assert(self@[b].name == before[b].name);
                    }
                }
            },
            None => {},
        }
    }

    /// The agents as `list_agents` shows them: name, role, creation time and
    /// exchanges so far.
    pub fn list(&self) -> (r: Vec<JsonValue>)
        ensures
            r@.len() == self@.len(),
            forall|i: int| 0 <= i < r@.len() ==> listed(#[trigger] r@[i], self@[i]),
    {
        let mut out: Vec<JsonValue> = Vec::new();
        let mut i: usize = 0;
        while i < self.agents.len()
            invariant
                i <= self.agents.len(),
                out@.len() == i,
                forall|k: int| 0 <= k < i ==> listed(#[trigger] out@[k], self@[k]),
            decreases self.agents.len() - i,
        {
            let a = &self.agents[i];
            let mut es: Vec<(String, JsonValue)> = Vec::new();
            es.push(("name".to_string(), JsonValue::String(a.def.name.clone())));
            es.push(("role".to_string(), JsonValue::String(a.def.role.clone())));
            es.push(("created_at".to_string(), JsonValue::String(a.def.created_at.clone())));
            es.push(("turns".to_string(), JsonValue::Number(JsonNumber::PosInt((a.history.len() / 2) as u64))));
            out.push(JsonValue::Object(es));
            i += 1;
        }
        out
    }

    /// The saved definitions, in roster order.
    pub fn defs(&self) -> (r: Vec<AgentDef>)
        ensures
            r@.len() == self@.len(),
            forall|i: int| 0 <= i < r@.len() ==> (#[trigger] r@[i]).name@ == self@[i].name && r@[i].role@
                == self@[i].role && r@[i].created_at@ == self@[i].created_at,
    {
        let mut out: Vec<AgentDef> = Vec::new();
        let mut i: usize = 0;
        while i < self.agents.len()
            invariant
                i <= self.agents.len(),
                out@.len() == i,
                forall|k: int| 0 <= k < i ==> (#[trigger] out@[k]).name@ == self@[k].name && out@[k].role@
                    == self@[k].role && out@[k].created_at@ == self@[k].created_at,
            decreases self.agents.len() - i,
        {
            out.push(self.agents[i].def.duplicate());
            i += 1;
        }
        out
    }
}

/// How `list_agents` shows one agent.
pub open spec fn listed(j: JsonValue, a: AgentView) -> bool {
    j is Object && {
        let es = j->Object_0@;
        &&& es.len() == 4
        &&& es[0].0@ == "name"@ && es[0].1 is String && es[0].1->String_0@ == a.name
        &&& es[1].0@ == "role"@ && es[1].1 is String && es[1].1->String_0@ == a.role
        &&& es[2].0@ == "created_at"@ && es[2].1 is String && es[2].1->String_0@ == a.created_at
        &&& es[3].0@ == "turns"@ && es[3].1 == JsonValue::Number(
            JsonNumber::PosInt((a.history.len() / 2) as u64),
        )
    }
}

/// The system prompt of an agent with this role.
pub open spec fn agent_prompt(role: Seq<char>) -> Seq<char> {
    "你是顾清影创建的专属子代理，负责完成交给你的具体任务。\n\n你的角色设定：\n"@ + role
        + "\n\n工作守则（必须遵守）：\n1. 只输出真实、可核查的信息；绝不编造事实、数据、引用或来源。\n2. 涉及事实/数据/外部信息时，优先调用工具核实（如 gqy_web_search、gqy_web_fetch、gqy_search_knowledge_base），不要凭记忆猜测。\n3. 无法核实或不确定的内容，明确标注「不确定」或「未能核实」，不要给出貌似权威的假答案。\n4. 引用外部信息时说明来源；没有来源支撑的结论不要强加。\n5. 输出简洁、直接、可用；任务完成即给出结论，不要过度寒暄。"@
}

pub fn agent_system_prompt(role: &str) -> (r: String)
    ensures
        r@ == agent_prompt(role@),
{
    let mut m = chars_of("你是顾清影创建的专属子代理，负责完成交给你的具体任务。\n\n你的角色设定：\n");
    extend_str(&mut m, role);
    extend_str(&mut m, "\n\n工作守则（必须遵守）：\n1. 只输出真实、可核查的信息；绝不编造事实、数据、引用或来源。\n2. 涉及事实/数据/外部信息时，优先调用工具核实（如 gqy_web_search、gqy_web_fetch、gqy_search_knowledge_base），不要凭记忆猜测。\n3. 无法核实或不确定的内容，明确标注「不确定」或「未能核实」，不要给出貌似权威的假答案。\n4. 引用外部信息时说明来源；没有来源支撑的结论不要强加。\n5. 输出简洁、直接、可用；任务完成即给出结论，不要过度寒暄。");
    string_of(m.as_slice())
}

} // verus!

verus! {

/// A valid agent name: an ASCII letter, then ASCII letters, digits and `_`,
/// at most 32 in all.
pub open spec fn valid_agent_name(name: Seq<char>) -> bool {
    &&& name.len() > 0
    &&& is_ascii_alphabetic(name[0])
    &&& forall|i: int| 0 <= i < name.len() ==> is_ascii_alphanumeric(#[trigger] name[i]) || name[i] == '_'
    &&& name.len() <= 32
}

pub fn is_valid_agent_name(name: &str) -> (r: bool)
    ensures
        r == valid_agent_name(name@),
{
    let c = chars_of(name);
    if c.len() == 0 || !char_is_ascii_alphabetic(c[0]) {
        return false;
    }
    let mut i: usize = 0;
    while i < c.len()
        invariant
            i <= c.len(),
            c@ == name@,
            forall|k: int| 0 <= k < i ==> is_ascii_alphanumeric(#[trigger] name@[k]) || name@[k] == '_',
        decreases c.len() - i,
    {
        if !(char_is_ascii_alphanumeric(c[i]) || c[i] == '_') {
            return false;
        }
        i += 1;
    }
    c.len() <= 32
}

/// A text argument, trimmed; empty when absent or not a string.
pub open spec fn arg_text(args: JsonValue, key: Seq<char>) -> Seq<char> {
    match as_str(get(args, key)) {
        Some(v) => trim(v),
        None => seq![],
    }
}

/// A required text argument, trimmed; missing when absent, not a string or
/// blank.
pub fn required_str(args: &JsonValue, key: &str) -> (r: Result<String, AgentError>)
    ensures
        match r {
            Ok(s) => s@ == arg_text(*args, key@) && s@.len() > 0,
            Err(e) => (e matches AgentError::MissingArg(k) && k@ == key@) && arg_text(*args, key@).len() == 0,
        },
{
    match json_as_str(json_get(args, key)) {
        Some(v) => {
            let t = trim_str(v);
            if t.len() > 0 {
                Ok(string_of(t.as_slice()))
            } else {
                Err(AgentError::MissingArg(key.to_string()))
            }
        },
        None => Err(AgentError::MissingArg(key.to_string())),
    }
}

/// What each refusal says.
pub open spec fn error_text(e: AgentError) -> Seq<char> {
    match e {
        AgentError::MissingArg(k) => "缺少必填参数："@ + k@,
        AgentError::InvalidName(n) => "agent 名字只能包含字母数字下划线，且以字母开头："@ + n@,
        AgentError::TooMany => "agent 数量已达上限 16，先 kill 一些再创建"@,
        AgentError::NotFound(n) => "agent 不存在："@ + n@ + "（先用 spawn_agent 创建）"@,
    }
}

impl AgentError {
    pub fn message(&self) -> (r: String)
        ensures
            r@ == error_text(*self),
    {
        let mut m: Vec<char> = Vec::new();
        match self {
            AgentError::MissingArg(k) => {
                extend_str(&mut m, "缺少必填参数：");
                extend_str(&mut m, k.as_str());
            },
            AgentError::InvalidName(n) => {
                extend_str(&mut m, "agent 名字只能包含字母数字下划线，且以字母开头：");
                extend_str(&mut m, n.as_str());
            },
            AgentError::TooMany => {
                extend_str(&mut m, "agent 数量已达上限 16，先 kill 一些再创建");
            },
            AgentError::NotFound(n) => {
                extend_str(&mut m, "agent 不存在：");
                extend_str(&mut m, n.as_str());
                extend_str(&mut m, "（先用 spawn_agent 创建）");
            },
        }
        string_of(m.as_slice())
    }
}

/// The spawn request's name and role: both required, the name valid.
pub fn spawn_request(args: &JsonValue) -> (r: Result<(String, String), AgentError>)
    ensures
        ({
            let n = arg_text(*args, "name"@);
            let ro = arg_text(*args, "role"@);
            if n.len() == 0 {
                r matches Err(AgentError::MissingArg(k)) && k@ == "name"@
            } else if ro.len() == 0 {
                r matches Err(AgentError::MissingArg(k)) && k@ == "role"@
            } else if !valid_agent_name(n) {
                r matches Err(AgentError::InvalidName(x)) && x@ == n
            } else {
                r matches Ok((a, b)) && a@ == n && b@ == ro
            }
        }),
{
    let name = match required_str(args, "name") {
        Ok(n) => n,
        Err(e) => {
            return Err(e);
        },
    };
    let role = match required_str(args, "role") {
        Ok(r) => r,
        Err(e) => {
            return Err(e);
        },
    };
    if !is_valid_agent_name(name.as_str()) {
        return Err(AgentError::InvalidName(name));
    }
    Ok((name, role))
}

fn str_entry_of(key: &str, text: &str) -> (r: (String, JsonValue))
    ensures
        r.0@ == key@ && r.1 is String && r.1->String_0@ == text@,
{
    (key.to_string(), JsonValue::String(text.to_string()))
}

/// What `spawn_agent` answers once the agent is ready.
pub fn spawn_reply(name: &str, role: &str) -> (r: JsonValue)
    ensures
        r is Object && r->Object_0@.len() == 3 && r->Object_0@[0].0@ == "ok"@ && r->Object_0@[0].1
            == JsonValue::Bool(true) && r->Object_0@[1].0@ == "message"@ && r->Object_0@[1].1 is String
            && r->Object_0@[1].1->String_0@ == "agent「"@ + name@ + "」已就绪（角色："@ + role@
            + "）。对它说 talk_to_agent(name=\""@ + name@ + "\", message=...) 即可派活。"@
            && r->Object_0@[2].0@ == "name"@ && r->Object_0@[2].1 is String
            && r->Object_0@[2].1->String_0@ == name@,
{
    let mut m = chars_of("agent「");
    extend_str(&mut m, name);
    extend_str(&mut m, "」已就绪（角色：");
    extend_str(&mut m, role);
    extend_str(&mut m, "）。对它说 talk_to_agent(name=\"");
    extend_str(&mut m, name);
    extend_str(&mut m, "\", message=...) 即可派活。");
    let mut es: Vec<(String, JsonValue)> = Vec::new();
    es.push(("ok".to_string(), JsonValue::Bool(true)));
    es.push(("message".to_string(), JsonValue::String(string_of(m.as_slice()))));
    es.push(str_entry_of("name", name));
    JsonValue::Object(es)
}

/// What `talk_to_agent` answers.
pub fn talk_reply(name: &str, reply: String) -> (r: JsonValue)
    ensures
        r is Object && r->Object_0@.len() == 3 && r->Object_0@[0].0@ == "ok"@ && r->Object_0@[0].1
            == JsonValue::Bool(true) && r->Object_0@[1].0@ == "name"@ && r->Object_0@[1].1 is String
            && r->Object_0@[1].1->String_0@ == name@ && r->Object_0@[2].0@ == "reply"@
            && r->Object_0@[2].1 == JsonValue::String(reply),
{
    let mut es: Vec<(String, JsonValue)> = Vec::new();
    es.push(("ok".to_string(), JsonValue::Bool(true)));
    es.push(str_entry_of("name", name));
    es.push(("reply".to_string(), JsonValue::String(reply)));
    JsonValue::Object(es)
}

/// What `list_agents` answers.
pub fn list_reply(agents: Vec<JsonValue>) -> (r: JsonValue)
    ensures
        r is Object && r->Object_0@.len() == 2 && r->Object_0@[0].0@ == "ok"@ && r->Object_0@[0].1
            == JsonValue::Bool(true) && r->Object_0@[1].0@ == "agents"@ && r->Object_0@[1].1
            == JsonValue::Array(agents),
{
    let mut es: Vec<(String, JsonValue)> = Vec::new();
    es.push(("ok".to_string(), JsonValue::Bool(true)));
    es.push(("agents".to_string(), JsonValue::Array(agents)));
    JsonValue::Object(es)
}

/// What `kill_agent` answers.
pub fn kill_reply(name: &str, removed: bool) -> (r: JsonValue)
    ensures
        r is Object && r->Object_0@.len() == 3 && r->Object_0@[0].0@ == "ok"@ && r->Object_0@[0].1
            == JsonValue::Bool(true) && r->Object_0@[1].0@ == "removed"@ && r->Object_0@[1].1
            == JsonValue::Bool(removed) && r->Object_0@[2].0@ == "message"@ && r->Object_0@[2].1 is String
            && r->Object_0@[2].1->String_0@ == if removed {
            "agent「"@ + name@ + "」已销毁"@
        } else {
            "没有找到 agent「"@ + name@ + "」"@
        },
{
    let mut m: Vec<char> = Vec::new();
    if removed {
        extend_str(&mut m, "agent「");
        extend_str(&mut m, name);
        extend_str(&mut m, "」已销毁");
    } else {
        extend_str(&mut m, "没有找到 agent「");
        extend_str(&mut m, name);
        extend_str(&mut m, "」");
    }
    let mut es: Vec<(String, JsonValue)> = Vec::new();
    es.push(("ok".to_string(), JsonValue::Bool(true)));
    es.push(("removed".to_string(), JsonValue::Bool(removed)));
    es.push(("message".to_string(), JsonValue::String(string_of(m.as_slice()))));
    JsonValue::Object(es)
}

/// The progress line for a piece of an agent's streamed answer: its thinking
/// or its text, when not blank.
pub fn stream_progress(name: &str, kind: crate::llm::ChatStreamKind, text: &str) -> (r: Option<String>)
    ensures
        match r {
            Some(line) => trim(text@).len() > 0 && match kind {
                crate::llm::ChatStreamKind::Reasoning => line@ == "🧠 "@ + name@ + " 思考："@ + text@,
                crate::llm::ChatStreamKind::Content => line@ == "✍️ "@ + name@ + "："@ + text@,
                _ => false,
            },
            None => trim(text@).len() == 0 || !(kind is Reasoning || kind is Content),
        },
{
    let blank = trim_str(text).len() == 0;
    match kind {
        crate::llm::ChatStreamKind::Reasoning => {
            if blank {
                return None;
            }
            let mut m = chars_of("🧠 ");
            extend_str(&mut m, name);
            extend_str(&mut m, " 思考：");
            extend_str(&mut m, text);
            Some(string_of(m.as_slice()))
        },
        crate::llm::ChatStreamKind::Content => {
            if blank {
                return None;
            }
            let mut m = chars_of("✍️ ");
            extend_str(&mut m, name);
            extend_str(&mut m, "：");
            extend_str(&mut m, text);
            Some(string_of(m.as_slice()))
        },
        _ => None,
    }
}

/// Creating an agent whose name is new, in a roster with room, and then
/// removing it gives the roster back as it was.
pub proof fn lemma_ensure_then_remove(v: Seq<AgentView>, name: Seq<char>, role: Seq<char>, created_at: Seq<char>)
    requires
        unique_names(v),
        index_of(v, name) is None,
        v.len() < MAX_AGENTS,
    ensures
        removed(ensured(v, name, role, created_at), name) == v,
{
    let w = ensured(v, name, role, created_at);
    assert(w[v.len() as int].name == name);
    let i = index_of(w, name)->0;
    assert(w[i].name == name);
    if i < v.len() {
        assert(v[i] == w[i]);
    }
    assert(i == v.len());
    assert(w.remove(i) =~= v);
}

/// A roster keeps its size within the limit through any creation, update
/// or removal, and updating an agent keeps the number of agents.
pub proof fn lemma_roster_stays_bounded(v: Seq<AgentView>, name: Seq<char>, role: Seq<char>, created_at: Seq<char>)
    requires
        v.len() <= MAX_AGENTS,
    ensures
        ensured(v, name, role, created_at).len() <= MAX_AGENTS,
        index_of(v, name) is Some ==> ensured(v, name, role, created_at).len() == v.len(),
        removed(v, name).len() <= v.len(),
{
}

/// Ensuring an agent that exists replaces its role and keeps everything else.
pub proof fn lemma_ensure_updates_role(v: Seq<AgentView>, name: Seq<char>, role: Seq<char>, created_at: Seq<char>)
    requires
        index_of(v, name) matches Some(i),
    ensures
        index_of(v, name) matches Some(i) && {
            let w = ensured(v, name, role, created_at);
            &&& w.len() == v.len()
            &&& w[i].name == name && w[i].role == role
            &&& w[i].history == v[i].history && w[i].created_at == v[i].created_at
            &&& forall|j: int| 0 <= j < v.len() && j != i ==> w[j] == v[j]
        },
{
    let i = index_of(v, name)->0;
    assert(v[i].name == name);
}

} // verus!
