//! The orchestrator's own tools and bookkeeping: the workflow variables that
//! agents read and write, the tool definitions an agent is offered, and how
//! a tool call is routed.
use vstd::prelude::*;

use crate::text::{chars_of, eq_chars, string_of};

verus! {

/// A message of an agent.
pub struct AgentMessage<T> {
    pub agent: String,
    pub message: T,
}

/// A tool an agent may call: its name and what it does.
pub struct ToolDefinition {
    pub name: String,
    pub description: String,
}

/// The result of a tool call: the tool, the call it answers, the content and
/// whether the call failed.
pub struct ToolResult {
    pub name: String,
    pub call_id: Option<String>,
    pub content: String,
    pub is_error: bool,
}

/// A tool call: the tool's name and the call's identifier.
pub struct ToolCallFull {
    pub name: String,
    pub call_id: Option<String>,
}

/// The lower-case hexadecimal digit for `n` (0 to 15).
pub open spec fn hex_digit(n: int) -> char {
    if n < 10 {
        ('0' as int + n) as char
    } else {
        ('a' as int + n - 10) as char
    }
}

/// How a character stands inside a JSON string: quote, backslash and the
/// control characters escaped, the control characters without a short
/// escape as `\u00` and two lower-case hexadecimal digits, every other
/// character as it is.
pub open spec fn json_escape_char(c: char) -> Seq<char> {
    if c == '"' {
        seq!['\\', '"']
    } else if c == '\\' {
        seq!['\\', '\\']
    } else if c == '\u{8}' {
        seq!['\\', 'b']
    } else if c == '\t' {
        seq!['\\', 't']
    } else if c == '\n' {
        seq!['\\', 'n']
    } else if c == '\u{c}' {
        seq!['\\', 'f']
    } else if c == '\r' {
        seq!['\\', 'r']
    } else if (c as int) < 0x20 {
        seq!['\\', 'u', '0', '0', hex_digit((c as int) / 16), hex_digit((c as int) % 16)]
    } else {
        seq![c]
    }
}

/// The characters of `s`, each as it stands inside a JSON string.
pub open spec fn json_escape(s: Seq<char>) -> Seq<char>
    decreases s.len(),
{
    if s.len() == 0 {
        Seq::empty()
    } else {
        json_escape(s.drop_last()) + json_escape_char(s.last())
    }
}

/// `s` as a JSON string: escaped, between double quotes.
pub open spec fn json_string(s: Seq<char>) -> Seq<char> {
    seq!['"'] + json_escape(s) + seq!['"']
}

/// `serde_json::to_string` of the string `s`: the escaped characters
/// between double quotes, as serde_json's string formatter writes them.
/// Serializing a string into memory cannot fail in serde_json (its writer
/// is a `Vec<u8>`), so the `Err` arm is never taken.
#[verifier::external_body]
fn to_json_string(s: &str) -> (r: String)
    ensures
        r@ == json_string(s@),
{
    match serde_json::to_string(s) {
        Ok(t) => t,
        Err(_) => String::new(),
    }
}

/// Whether two strings hold the same characters.
fn same_text(a: &str, b: &str) -> (r: bool)
    ensures
        r == (a@ == b@),
{
    eq_chars(&chars_of(a), &chars_of(b))
}

/// The map that a list of bindings stands for; a later binding of a name
/// overrides an earlier one.
pub open spec fn bindings_map(e: Seq<(String, String)>) -> Map<Seq<char>, Seq<char>>
    decreases e.len(),
{
    if e.len() == 0 {
        Map::empty()
    } else {
        bindings_map(e.drop_last()).insert(e.last().0@, e.last().1@)
    }
}

/// No binding after index `i` is for `k`.
pub open spec fn last_binding_at(e: Seq<(String, String)>, i: int, k: Seq<char>) -> bool {
    &&& 0 <= i < e.len()
    &&& e[i].0@ == k
    &&& forall|j: int| i < j < e.len() ==> (#[trigger] e[j]).0@ != k
}

proof fn lemma_bindings_lookup(e: Seq<(String, String)>, i: int, k: Seq<char>)
    requires
        last_binding_at(e, i, k),
    ensures
        bindings_map(e).contains_key(k),
        bindings_map(e)[k] == e[i].1@,
    decreases e.len(),
{
    if i < e.len() - 1 {
        assert(e.last() == e[e.len() - 1]);
        let d = e.drop_last();
        assert forall|j: int| i < j < d.len() implies (#[trigger] d[j]).0@ != k by {
            assert(d[j] == e[j]);
        }
        lemma_bindings_lookup(d, i, k);
    }
}

proof fn lemma_bindings_absent(e: Seq<(String, String)>, k: Seq<char>)
    requires
        forall|j: int| 0 <= j < e.len() ==> (#[trigger] e[j]).0@ != k,
    ensures
        !bindings_map(e).contains_key(k),
    decreases e.len(),
{
    if e.len() > 0 {
        let d = e.drop_last();
        assert(e.last() == e[e.len() - 1]);
        assert forall|j: int| 0 <= j < d.len() implies (#[trigger] d[j]).0@ != k by {
            assert(d[j] == e[j]);
        }
        lemma_bindings_absent(d, k);
    }
}

proof fn lemma_bindings_update(e: Seq<(String, String)>, i: int, x: (String, String))
    requires
        last_binding_at(e, i, x.0@),
    ensures
        bindings_map(e.update(i, x)) == bindings_map(e).insert(x.0@, x.1@),
    decreases e.len(),
{
    let u = e.update(i, x);
    if i == e.len() - 1 {
        assert(u.drop_last() =~= e.drop_last());
        assert(bindings_map(u) =~= bindings_map(e).insert(x.0@, x.1@));
    } else {
        let d = e.drop_last();
        assert(u.drop_last() =~= d.update(i, x));
        assert(e.last() == e[e.len() - 1]);
        assert(u.last() == e.last());
        assert forall|j: int| i < j < d.len() implies (#[trigger] d[j]).0@ != x.0@ by {
            assert(d[j] == e[j]);
        }
        lemma_bindings_update(d, i, x);
        assert(e.last().0@ != x.0@);
        assert(bindings_map(u) =~= bindings_map(e).insert(x.0@, x.1@));
    }
}

/// The workflow variables: names bound to values.
pub struct Variables {
    entries: Vec<(String, String)>,
}

impl View for Variables {
    type V = Map<Seq<char>, Seq<char>>;

    /// The bindings as a map from names to values.
    closed spec fn view(&self) -> Map<Seq<char>, Seq<char>> {
        bindings_map(self.entries@)
    }
}

impl Variables {
    /// No variables.
    pub fn new() -> (r: Variables)
        ensures
            r@ == Map::<Seq<char>, Seq<char>>::empty(),
    {
        Variables { entries: Vec::new() }
    }

    /// The index of the last binding of `name`, if any.
    fn position(&self, name: &str) -> (r: Option<usize>)
        ensures
            match r {
                Some(i) => last_binding_at(self.entries@, i as int, name@),
                None => forall|j: int| 0 <= j < self.entries@.len() ==> (#[trigger] self.entries@[j]).0@ != name@,
            },
    {
        let mut i: usize = self.entries.len();
        while i > 0
            invariant
                i <= self.entries@.len(),
                forall|j: int| i <= j < self.entries@.len() ==> (#[trigger] self.entries@[j]).0@ != name@,
            decreases i,
        {
            if same_text(self.entries[i - 1].0.as_str(), name) {
                return Some(i - 1);
            }
            i = i - 1;
        }
        None
    }

    /// The value bound to `name`.
    pub fn get(&self, name: &str) -> (r: Option<String>)
        ensures
            match r {
                Some(v) => self@.contains_key(name@) && self@[name@] == v@,
                None => !self@.contains_key(name@),
            },
    {
        match self.position(name) {
            Some(i) => {
                proof {
                    lemma_bindings_lookup(self.entries@, i as int, name@);
                }
                Some(string_of(&chars_of(self.entries[i].1.as_str())))
            },
            None => {
                proof {
                    lemma_bindings_absent(self.entries@, name@);
                }
                None
            },
        }
    }

    /// Binds `name` to `value`, replacing any earlier binding of `name`.
    pub fn add(&mut self, name: &str, value: &str)
        ensures
            final(self)@ == old(self)@.insert(name@, value@),
    {
        let entry = (string_of(&chars_of(name)), string_of(&chars_of(value)));
        match self.position(name) {
            Some(i) => {
                proof {
                    lemma_bindings_update(self.entries@, i as int, entry);
                }
                self.entries.set(i, entry);
            },
            None => {
                let ghost before = self.entries@;
                self.entries.push(entry);
                assert(self.entries@.drop_last() =~= before);
            },
        }
    }
}


impl View for ToolDefinition {
    type V = (Seq<char>, Seq<char>);

    open spec fn view(&self) -> (Seq<char>, Seq<char>) {
        (self.name@, self.description@)
    }
}

/// The views of a list of tool definitions.
pub open spec fn defs_view(v: Seq<ToolDefinition>) -> Seq<(Seq<char>, Seq<char>)> {
    v.map_values(|d: ToolDefinition| d@)
}

/// The definitions whose names are among `allowed`, in their order.
pub open spec fn keep_allowed(defs: Seq<(Seq<char>, Seq<char>)>, allowed: Seq<Seq<char>>) -> Seq<(Seq<char>, Seq<char>)>
    decreases defs.len(),
{
    if defs.len() == 0 {
        Seq::empty()
    } else {
        let rest = keep_allowed(defs.drop_last(), allowed);
        if allowed.contains(defs.last().0) {
            rest.push(defs.last())
        } else {
            rest
        }
    }
}

/// The name of the tool that reads a workflow variable.
pub open spec fn read_variable_name() -> Seq<char> {
    "forge_read_variable"@
}

/// The name of the tool that writes a workflow variable.
pub open spec fn write_variable_name() -> Seq<char> {
    "forge_write_variable"@
}

/// The arguments of a call of the variable-reading tool.
pub struct ReadVariable {
    pub name: String,
}

/// The arguments of a call of the variable-writing tool.
pub struct WriteVariable {
    pub name: String,
    pub value: String,
}

impl ReadVariable {
    /// The definition of the variable-reading tool.
    pub fn tool_definition() -> (d: ToolDefinition)
        ensures
            d@ == (read_variable_name(), "Reads a global workflow variable"@),
    {
        ToolDefinition {
            name: String::from_str("forge_read_variable"),
            description: String::from_str("Reads a global workflow variable"),
        }
    }

    /// The tool's name.
    pub fn tool_name() -> (n: String)
        ensures
            n@ == read_variable_name(),
    {
        Self::tool_definition().name
    }

    /// A call of the variable-reading tool, given what its arguments decode
    /// to: `None` when the call names another tool.
    pub fn parse(tool_call: &ToolCallFull, decoded: Option<ReadVariable>) -> (r: Option<ReadVariable>)
        ensures
            tool_call.name@ != read_variable_name() ==> r is None,
            tool_call.name@ == read_variable_name() ==> r == decoded,
    {
        let def = Self::tool_definition();
        if !same_text(tool_call.name.as_str(), def.name.as_str()) {
            return None;
        }
        decoded
    }
}

impl WriteVariable {
    /// The definition of the variable-writing tool.
    pub fn tool_definition() -> (d: ToolDefinition)
        ensures
            d@ == (write_variable_name(), "Writes a global workflow variable"@),
    {
        ToolDefinition {
            name: String::from_str("forge_write_variable"),
            description: String::from_str("Writes a global workflow variable"),
        }
    }

    /// The tool's name.
    pub fn tool_name() -> (n: String)
        ensures
            n@ == write_variable_name(),
    {
        Self::tool_definition().name
    }

    /// A call of the variable-writing tool, given what its arguments decode
    /// to: `None` when the call names another tool.
    pub fn parse(tool_call: &ToolCallFull, decoded: Option<WriteVariable>) -> (r: Option<WriteVariable>)
        ensures
            tool_call.name@ != write_variable_name() ==> r is None,
            tool_call.name@ == write_variable_name() ==> r == decoded,
    {
        let def = Self::tool_definition();
        if !same_text(tool_call.name.as_str(), def.name.as_str()) {
            return None;
        }
        decoded
    }
}

/// The content of a successful write of `value` to `name`.
pub open spec fn write_message(name: Seq<char>, value: Seq<char>) -> Seq<char> {
    "Variable "@ + name + " set to "@ + value
}

/// The content of a read of an unbound `name`.
pub open spec fn not_found_message(name: Seq<char>) -> Seq<char> {
    "Variable "@ + name + " not found"@
}

/// The result of reading `name` from variables `vars`: `(content, is_error)`.
pub open spec fn spec_read(vars: Map<Seq<char>, Seq<char>>, name: Seq<char>) -> (Seq<char>, bool) {
    if vars.contains_key(name) {
        (json_string(vars[name]), false)
    } else {
        (not_found_message(name), true)
    }
}

/// An agent of the workflow: its identifier, the tools it may call and
/// whether its context is kept between runs.
pub struct Agent {
    pub id: String,
    pub tools: Vec<String>,
    pub ephemeral: bool,
}

/// Where a tool call goes.
pub enum ToolRoute {
    ReadVariable(ReadVariable),
    WriteVariable(WriteVariable),
    Agent(usize),
    Tool,
}

/// The orchestrator's tools, agents and variables.
pub struct Orchestrator {
    pub tools: Vec<ToolDefinition>,
    pub agents: Vec<Agent>,
    pub variables: Variables,
}

impl Orchestrator {
    /// An orchestrator offering `tools`, with no agents and no variables.
    pub fn new(tools: Vec<ToolDefinition>) -> (r: Orchestrator)
        ensures
            r.tools == tools,
            r.agents@.len() == 0,
            r.variables@ == Map::<Seq<char>, Seq<char>>::empty(),
    {
        Orchestrator { tools, agents: Vec::new(), variables: Variables::new() }
    }

    /// The tools every agent may be offered.
    pub fn init_default_tool_definitions(&self) -> (r: Vec<ToolDefinition>)
        ensures
            defs_view(r@) == defs_view(self.tools@),
    {
        let mut r: Vec<ToolDefinition> = Vec::new();
        let mut i: usize = 0;
        while i < self.tools.len()
            invariant
                i <= self.tools.len(),
                defs_view(r@) == defs_view(self.tools@).take(i as int),
            decreases self.tools.len() - i,
        {
            let d = &self.tools[i];
            let ghost before = r@;
            r.push(ToolDefinition { name: string_of(&chars_of(d.name.as_str())), description: string_of(&chars_of(d.description.as_str())) });
            assert(defs_view(r@) =~= defs_view(before).push(self.tools@[i as int]@));
            assert(defs_view(self.tools@).take(i + 1) =~= defs_view(self.tools@).take(i as int).push(self.tools@[i as int]@));
            i = i + 1;
        }
        assert(defs_view(self.tools@).take(self.tools.len() as int) =~= defs_view(self.tools@));
        r
    }

    /// The tools offered to `agent`: the orchestrator's tools and its own
    /// two variable tools, kept when `agent` lists their names, in order.
    pub fn init_tool_definitions(&self, agent: &Agent) -> (r: Vec<ToolDefinition>)
        ensures
            defs_view(r@) == keep_allowed(
                defs_view(self.tools@).push((read_variable_name(), "Reads a global workflow variable"@)).push(
                    (write_variable_name(), "Writes a global workflow variable"@),
                ),
                agent.tools@.map_values(|t: String| t@),
            ),
    {
        let mut all = self.init_default_tool_definitions();
        all.push(ReadVariable::tool_definition());
        all.push(WriteVariable::tool_definition());
        let ghost allowed = agent.tools@.map_values(|t: String| t@);
        let ghost av = defs_view(all@);
        assert(av =~= defs_view(self.tools@).push((read_variable_name(), "Reads a global workflow variable"@)).push(
            (write_variable_name(), "Writes a global workflow variable"@)));
        let mut r: Vec<ToolDefinition> = Vec::new();
        let mut i: usize = 0;
        while i < all.len()
            invariant
                i <= all.len(),
                av == defs_view(all@),
                allowed == agent.tools@.map_values(|t: String| t@),
                defs_view(r@) == keep_allowed(av.take(i as int), allowed),
            decreases all.len() - i,
        {
            let mut found = false;
            let mut j: usize = 0;
            while j < agent.tools.len()
                invariant
                    j <= agent.tools.len(),
                    i < all.len(),
                    allowed == agent.tools@.map_values(|t: String| t@),
                    found == exists|k: int| 0 <= k < j && #[trigger] allowed[k] == all@[i as int].name@,
                decreases agent.tools.len() - j,
            {
                let same = same_text(agent.tools[j].as_str(), all[i].name.as_str());
                proof {
                    assert(allowed[j as int] == agent.tools@[j as int]@);
                    if !same {
                        assert forall|k: int| 0 <= k < j + 1 && #[trigger] allowed[k] == all@[i as int].name@ implies k < j by {}
                    }
                }
                if same {
                    found = true;
                }
                j = j + 1;
            }
            proof {
                assert(av.take(i + 1).drop_last() =~= av.take(i as int));
                assert(av.take(i + 1).last() == all@[i as int]@);
                if found {
                    let k = choose|k: int| 0 <= k < j && allowed[k] == all@[i as int].name@;
                    assert(allowed.contains(all@[i as int].name@));
                } else {
                    assert(!allowed.contains(all@[i as int].name@));
                }
            }
            if found {
                let d = &all[i];
                let ghost before = r@;
                r.push(ToolDefinition { name: string_of(&chars_of(d.name.as_str())), description: string_of(&chars_of(d.description.as_str())) });
                assert(defs_view(r@) =~= defs_view(before).push(all@[i as int]@));
            }
            i = i + 1;
        }
        assert(av.take(all.len() as int) =~= av);
        r
    }

    /// Writes a variable for a call of the writing tool and reports it.
    pub fn write_variable(&mut self, tool_call: &ToolCallFull, write: &WriteVariable) -> (r: ToolResult)
        ensures
            final(self).variables@ == old(self).variables@.insert(write.name@, write.value@),
            final(self).tools == old(self).tools,
            final(self).agents == old(self).agents,
            r.name@ == tool_call.name@,
            r.call_id == tool_call.call_id,
            r.content@ == write_message(write.name@, write.value@),
            !r.is_error,
    {
        self.variables.add(write.name.as_str(), write.value.as_str());
        let mut content = String::from_str("Variable ");
        content.append(write.name.as_str());
        content.append(" set to ");
        content.append(write.value.as_str());
        ToolResult {
            name: string_of(&chars_of(tool_call.name.as_str())),
            call_id: copy_id(&tool_call.call_id),
            content,
            is_error: false,
        }
    }

    /// Reads a variable for a call of the reading tool: its value as JSON,
    /// or a failure when it is not set.
    pub fn read_variable(&self, tool_call: &ToolCallFull, read: &ReadVariable) -> (r: ToolResult)
        ensures
            r.name@ == tool_call.name@,
            r.call_id == tool_call.call_id,
            (r.content@, r.is_error) == spec_read(self.variables@, read.name@),
    {
        let name = string_of(&chars_of(tool_call.name.as_str()));
        match self.variables.get(read.name.as_str()) {
            Some(value) => ToolResult {
                name,
                call_id: copy_id(&tool_call.call_id),
                content: to_json_string(value.as_str()),
                is_error: false,
            },
            None => {
                let mut content = String::from_str("Variable ");
                content.append(read.name.as_str());
                content.append(" not found");
                ToolResult { name, call_id: copy_id(&tool_call.call_id), content, is_error: true }
            },
        }
    }

    /// Where a tool call goes: the variable tools first, then an agent whose
    /// identifier is the tool's name, then the tool service.
    pub fn route(&self, tool_call: &ToolCallFull, read: Option<ReadVariable>, write: Option<WriteVariable>) -> (r: ToolRoute)
        ensures
            read is Some ==> r == ToolRoute::ReadVariable(read->Some_0),
            read is None && write is Some ==> r == ToolRoute::WriteVariable(write->Some_0),
            read is None && write is None ==> match r {
                ToolRoute::Agent(i) => i < self.agents@.len() && self.agents@[i as int].id@ == tool_call.name@
                    && forall|j: int| 0 <= j < i ==> (#[trigger] self.agents@[j]).id@ != tool_call.name@,
                ToolRoute::Tool => forall|j: int| 0 <= j < self.agents@.len() ==> (#[trigger] self.agents@[j]).id@ != tool_call.name@,
                _ => false,
            },
    {
        match read {
            Some(r) => return ToolRoute::ReadVariable(r),
            None => {},
        }
        match write {
            Some(w) => return ToolRoute::WriteVariable(w),
            None => {},
        }
        let mut i: usize = 0;
        while i < self.agents.len()
            invariant
                i <= self.agents@.len(),
                read is None,
                write is None,
                forall|j: int| 0 <= j < i ==> (#[trigger] self.agents@[j]).id@ != tool_call.name@,
            decreases self.agents.len() - i,
        {
            if same_text(self.agents[i].id.as_str(), tool_call.name.as_str()) {
                return ToolRoute::Agent(i);
            }
            i = i + 1;
        }
        ToolRoute::Tool
    }
}

/// A copy of a call identifier.
fn copy_id(id: &Option<String>) -> (r: Option<String>)
    ensures
        r == *id,
{
    match id {
        Some(s) => Some(s.clone()),
        None => None,
    }
}

/// The lines of tool usage joined as the agent's prompt shows them: each
/// usage preceded by a newline.
pub open spec fn usage_prompt(usages: Seq<Seq<char>>) -> Seq<char>
    decreases usages.len(),
{
    if usages.len() == 0 {
        Seq::empty()
    } else {
        usage_prompt(usages.drop_last()) + "\n"@ + usages.last()
    }
}

/// Folds the usage texts of the offered tools into one prompt text.
pub fn tool_usage_prompt(usages: &Vec<String>) -> (r: String)
    ensures
        r@ == usage_prompt(usages@.map_values(|u: String| u@)),
{
    let ghost uv = usages@.map_values(|u: String| u@);
    let mut acc = String::new();
    let mut i: usize = 0;
    assert(uv.take(0) =~= Seq::<Seq<char>>::empty());
    while i < usages.len()
        invariant
            i <= usages.len(),
            uv == usages@.map_values(|u: String| u@),
            acc@ == usage_prompt(uv.take(i as int)),
        decreases usages.len() - i,
    {
        acc.append("\n");
        acc.append(usages[i].as_str());
        assert(uv.take(i + 1).drop_last() =~= uv.take(i as int));
        i = i + 1;
    }
    assert(uv.take(usages.len() as int) =~= uv);
    acc
}


/// A step that rewrites an agent's context before each round, by running
/// another agent on part of it.
pub enum Transform {
    /// Summarizes the context's assistant messages beyond `token_limit`:
    /// each summary is stored under `input`, the agent runs, and the summary
    /// becomes the value it left under `output`.
    Assistant { agent_id: String, token_limit: usize, input: String, output: String },
    /// Runs the agent on the last user message (stored under `input`) and
    /// appends the value it left under `output` to that message.
    User { agent_id: String, input: String, output: String },
    /// Runs the agent on the whole context (stored under `input`) without
    /// changing it.
    Tap { agent_id: String, input: String },
}

/// Why the orchestrator could not go on.
pub enum OrchestratorError {
    /// A transform's agent left no value under the output variable.
    UndefinedVariable(String),
}

/// What a transform takes from the variables after its agent ran: the
/// value under `output` as JSON, or the error naming the missing variable.
pub open spec fn spec_transform_output(
    vars: Map<Seq<char>, Seq<char>>,
    output: Seq<char>,
) -> Result<Seq<char>, Seq<char>> {
    if vars.contains_key(output) {
        Ok(json_string(vars[output]))
    } else {
        Err(output)
    }
}

/// The value a transform's agent left under `output`, as JSON.
pub fn transform_output(vars: &Variables, output: &str) -> (r: Result<String, OrchestratorError>)
    ensures
        match r {
            Ok(v) => spec_transform_output(vars@, output@) == Ok::<Seq<char>, Seq<char>>(v@),
            Err(OrchestratorError::UndefinedVariable(k)) => spec_transform_output(vars@, output@) == Err::<
                Seq<char>,
                Seq<char>,
            >(k@),
        },
{
    match vars.get(output) {
        Some(value) => Ok(to_json_string(value.as_str())),
        None => Err(OrchestratorError::UndefinedVariable(string_of(&chars_of(output)))),
    }
}

/// The user transform's last step: appends the value its agent left under
/// `output`, as JSON and tagged with the variable's name, to the user
/// message `content`; the message is left as it was when there is none.
pub fn append_user_transform(content: &mut String, vars: &Variables, output: &str) -> (r: Result<
    (),
    OrchestratorError,
>)
    ensures
        match spec_transform_output(vars@, output@) {
            Ok(v) => r is Ok && final(content)@ == old(content)@ + tagged_output_text(output@, v),
            Err(k) => r matches Err(OrchestratorError::UndefinedVariable(e)) && e@ == k && final(content)@
                == old(content)@,
        },
{
    match transform_output(vars, output) {
        Ok(message) => {
            let tagged = tagged_output(output, message.as_str());
            content.append(tagged.as_str());
            Ok(())
        },
        Err(e) => Err(e),
    }
}

/// Where an agent's context comes from when it starts a run.
pub enum ContextSource {
    /// A new context built from the agent's prompts and tools.
    Fresh,
    /// The context kept from the agent's last run.
    Kept,
}

/// An ephemeral agent always starts fresh; another one continues from its
/// kept context, when there is one.
pub fn context_source(agent: &Agent, kept: bool) -> (r: ContextSource)
    ensures
        r is Kept <==> (!agent.ephemeral && kept),
{
    if !agent.ephemeral && kept {
        ContextSource::Kept
    } else {
        ContextSource::Fresh
    }
}

/// What follows a round of an agent's run.
pub struct RoundOutcome {
    /// The results to add to the context, in the order of the calls.
    pub results: Vec<ToolResult>,
    /// Whether the context is kept for the agent's next run.
    pub keep_context: bool,
    /// Whether the run ends: no call gave a result.
    pub done: bool,
}

/// The results among the calls' outcomes, in order (a call handed to
/// another agent gives none).
pub open spec fn given_results(outcomes: Seq<Option<ToolResult>>) -> Seq<ToolResult>
    decreases outcomes.len(),
{
    if outcomes.len() == 0 {
        Seq::empty()
    } else {
        let rest = given_results(outcomes.drop_last());
        match outcomes.last() {
            Some(t) => rest.push(t),
            None => rest,
        }
    }
}

/// Ends a round of `agent`'s run, given the outcomes of its tool calls.
pub fn finish_round(agent: &Agent, outcomes: Vec<Option<ToolResult>>) -> (r: RoundOutcome)
    ensures
        r.results@ == given_results(outcomes@),
        r.keep_context == !agent.ephemeral,
        r.done == (given_results(outcomes@).len() == 0),
{
    let ghost all = outcomes@;
    let mut results: Vec<ToolResult> = Vec::new();
    let mut rest = outcomes;
    assert(all.take(0) =~= Seq::<Option<ToolResult>>::empty());
    assert(all.skip(0) =~= all);
    while rest.len() > 0
        invariant
            rest@.len() <= all.len(),
            rest@ == all.skip(all.len() - rest@.len()),
            results@ == given_results(all.take(all.len() - rest@.len())),
        decreases rest.len(),
    {
        let ghost k = all.len() - rest@.len();
        let o = rest.remove(0);
        assert(o == all[k]);
        assert(rest@ =~= all.skip(k + 1));
        assert(all.take(k + 1).drop_last() =~= all.take(k));
        assert(all.take(k + 1).last() == all[k]);
        match o {
            Some(t) => {
                results.push(t);
            },
            None => {},
        }
    }
    assert(all.take(all.len() as int) =~= all);
    let done = results.len() == 0;
    RoundOutcome { results, keep_context: !agent.ephemeral, done }
}

/// Reading a variable right after writing it gives the written value (as
/// JSON) and no error; writing one variable leaves reads of every other
/// variable as they were.
pub proof fn law_read_after_write(
    vars: Map<Seq<char>, Seq<char>>,
    name: Seq<char>,
    value: Seq<char>,
    other: Seq<char>,
)
    ensures
        spec_read(vars.insert(name, value), name) == (json_string(value), false),
        other != name ==> spec_read(vars.insert(name, value), other) == spec_read(vars, other),
{
}

/// Every tool offered to an agent is one of the given tools and is named in
/// the agent's list.
pub proof fn law_offered_tools_allowed(defs: Seq<(Seq<char>, Seq<char>)>, allowed: Seq<Seq<char>>)
    ensures
        forall|i: int|
            0 <= i < keep_allowed(defs, allowed).len() ==> allowed.contains(
                (#[trigger] keep_allowed(defs, allowed)[i]).0,
            ) && defs.contains(keep_allowed(defs, allowed)[i]),
    decreases defs.len(),
{
    if defs.len() > 0 {
        let init = defs.drop_last();
        law_offered_tools_allowed(init, allowed);
        let k = keep_allowed(defs, allowed);
        assert forall|i: int| 0 <= i < k.len() implies allowed.contains((#[trigger] k[i]).0) && defs.contains(k[i]) by {
            let r = keep_allowed(init, allowed);
            if i < r.len() {
                assert(k[i] == r[i]);
                let j = choose|j: int| 0 <= j < init.len() && init[j] == r[i];
                assert(defs[j] == init[j]);
            } else {
                assert(k[i] == defs.last());
                assert(defs[defs.len() - 1] == defs.last());
            }
        }
    }
}


/// The contents of the streamed messages that have one, concatenated.
pub open spec fn joined_contents(cs: Seq<Option<Seq<char>>>) -> Seq<char>
    decreases cs.len(),
{
    if cs.len() == 0 {
        Seq::empty()
    } else {
        joined_contents(cs.drop_last()) + match cs.last() {
            Some(c) => c,
            None => Seq::empty(),
        }
    }
}

/// The view of an optional content.
pub open spec fn content_view(c: Option<String>) -> Option<Seq<char>> {
    match c {
        Some(s) => Some(s@),
        None => None,
    }
}

/// The assistant's text collected from streamed messages: the contents of
/// the messages that carry one, in order, with nothing between them.
pub fn collect_content(contents: &Vec<Option<String>>) -> (r: String)
    ensures
        r@ == joined_contents(contents@.map_values(|c: Option<String>| content_view(c))),
{
    let ghost cv = contents@.map_values(|c: Option<String>| content_view(c));
    let mut acc = String::new();
    let mut i: usize = 0;
    assert(cv.take(0) =~= Seq::<Option<Seq<char>>>::empty());
    while i < contents.len()
        invariant
            i <= contents.len(),
            cv == contents@.map_values(|c: Option<String>| content_view(c)),
            acc@ == joined_contents(cv.take(i as int)),
        decreases contents.len() - i,
    {
        let ghost before = acc@;
        match &contents[i] {
            Some(c) => {
                acc.append(c.as_str());
            },
            None => {},
        }
        assert(cv.take(i + 1).drop_last() =~= cv.take(i as int));
        assert(cv.take(i + 1).last() == content_view(contents@[i as int]));
        assert(acc@ =~= before + match cv[i as int] {
            Some(c) => c,
            None => Seq::empty(),
        });
        i = i + 1;
    }
    assert(cv.take(contents.len() as int) =~= cv);
    acc
}

/// The text appended to the last user message by a transform that stores
/// its output under `key`: the output wrapped in an XML-like element.
pub open spec fn tagged_output_text(key: Seq<char>, message: Seq<char>) -> Seq<char> {
    "\n<"@ + key + ">\n"@ + message + "\n</"@ + key + ">"@
}

/// Wraps a transform's output in an element named after its key.
pub fn tagged_output(key: &str, message: &str) -> (r: String)
    ensures
        r@ == tagged_output_text(key@, message@),
{
    let mut r = String::from_str("\n<");
    r.append(key);
    r.append(">\n");
    r.append(message);
    r.append("\n</");
    r.append(key);
    r.append(">");
    r
}

} // verus!
