use forge::orch::{
    append_user_transform, collect_content, context_source, finish_round, tagged_output, tool_usage_prompt,
    transform_output, Agent, ContextSource, Orchestrator, OrchestratorError, ReadVariable, ToolCallFull,
    ToolDefinition, ToolResult, ToolRoute, Variables, WriteVariable,
};

fn def(name: &str, description: &str) -> ToolDefinition {
    ToolDefinition { name: name.to_string(), description: description.to_string() }
}

fn call(name: &str, id: Option<&str>) -> ToolCallFull {
    ToolCallFull { name: name.to_string(), call_id: id.map(|s| s.to_string()) }
}

#[test]
fn variables_keep_the_last_binding() {
    let mut v = Variables::new();
    assert_eq!(v.get("x"), None);
    v.add("x", "1");
    v.add("y", "2");
    v.add("x", "3");
    assert_eq!(v.get("x"), Some("3".to_string()));
    assert_eq!(v.get("y"), Some("2".to_string()));
    assert_eq!(v.get("z"), None);
}

#[test]
fn read_after_write_gives_the_value_as_json() {
    let mut o = Orchestrator::new(vec![]);
    let w = WriteVariable { name: "plan".to_string(), value: "say \"hi\"".to_string() };
    let wr = o.write_variable(&call("forge_write_variable", Some("c1")), &w);
    assert_eq!(wr.name, "forge_write_variable");
    assert_eq!(wr.call_id, Some("c1".to_string()));
    assert_eq!(wr.content, "Variable plan set to say \"hi\"");
    assert!(!wr.is_error);

    let r = ReadVariable { name: "plan".to_string() };
    let rr = o.read_variable(&call("forge_read_variable", Some("c2")), &r);
    assert_eq!(rr.content, "\"say \\\"hi\\\"\"");
    assert_eq!(rr.call_id, Some("c2".to_string()));
    assert!(!rr.is_error);
}

#[test]
fn reading_an_unset_variable_fails() {
    let o = Orchestrator::new(vec![]);
    let r = ReadVariable { name: "missing".to_string() };
    let rr = o.read_variable(&call("forge_read_variable", None), &r);
    assert_eq!(rr.content, "Variable missing not found");
    assert!(rr.is_error);
    assert_eq!(rr.call_id, None);
}

#[test]
fn variable_tool_names_and_parsing() {
    assert_eq!(ReadVariable::tool_name(), "forge_read_variable");
    assert_eq!(WriteVariable::tool_name(), "forge_write_variable");
    let decoded = Some(ReadVariable { name: "a".to_string() });
    assert!(ReadVariable::parse(&call("fs_read", None), decoded).is_none());
    let decoded = Some(ReadVariable { name: "a".to_string() });
    let parsed = ReadVariable::parse(&call("forge_read_variable", None), decoded).unwrap();
    assert_eq!(parsed.name, "a");
    let decoded = Some(WriteVariable { name: "a".to_string(), value: "b".to_string() });
    assert!(WriteVariable::parse(&call("forge_read_variable", None), decoded).is_none());
}

#[test]
fn agents_are_offered_only_their_tools() {
    let o = Orchestrator::new(vec![def("fs_read", "Reads a file"), def("shell", "Runs a command")]);
    let all = o.init_default_tool_definitions();
    assert_eq!(all.len(), 2);
    assert_eq!(all[1].name, "shell");

    let agent = Agent {
        id: "coder".to_string(),
        tools: vec!["forge_write_variable".to_string(), "fs_read".to_string(), "unknown".to_string()],
        ephemeral: false,
    };
    let offered = o.init_tool_definitions(&agent);
    let names: Vec<&str> = offered.iter().map(|d| d.name.as_str()).collect();
    assert_eq!(names, vec!["fs_read", "forge_write_variable"]);
    assert_eq!(offered[1].description, "Writes a global workflow variable");
}

#[test]
fn tool_calls_are_routed() {
    let mut o = Orchestrator::new(vec![]);
    o.agents.push(Agent { id: "planner".to_string(), tools: vec![], ephemeral: true });
    o.agents.push(Agent { id: "coder".to_string(), tools: vec![], ephemeral: false });
    let c = call("coder", None);
    assert!(matches!(o.route(&c, None, None), ToolRoute::Agent(1)));
    let c = call("shell", None);
    assert!(matches!(o.route(&c, None, None), ToolRoute::Tool));
    let c = call("forge_read_variable", None);
    let read = Some(ReadVariable { name: "x".to_string() });
    assert!(matches!(o.route(&c, read, None), ToolRoute::ReadVariable(_)));
    let c = call("forge_write_variable", None);
    let write = Some(WriteVariable { name: "x".to_string(), value: "y".to_string() });
    assert!(matches!(o.route(&c, None, write), ToolRoute::WriteVariable(_)));
}

#[test]
fn usage_prompt_puts_each_usage_on_its_own_line() {
    assert_eq!(tool_usage_prompt(&vec![]), "");
    assert_eq!(tool_usage_prompt(&vec!["a()".to_string(), "b(x)".to_string()]), "\na()\nb(x)");
}

#[test]
fn streamed_contents_are_concatenated() {
    let parts = vec![Some("Hel".to_string()), None, Some("lo".to_string()), Some(String::new())];
    assert_eq!(collect_content(&parts), "Hello");
    assert_eq!(collect_content(&vec![]), "");
}

#[test]
fn transform_output_is_tagged() {
    assert_eq!(tagged_output("summary", "done"), "\n<summary>\ndone\n</summary>");
}

#[test]
fn transform_output_is_the_variable_as_json() {
    let mut v = Variables::new();
    v.add("summary", "short");
    assert_eq!(transform_output(&v, "summary").ok(), Some("\"short\"".to_string()));
    match transform_output(&v, "missing") {
        Err(OrchestratorError::UndefinedVariable(k)) => assert_eq!(k, "missing"),
        Ok(_) => panic!("expected an undefined variable"),
    }
}

#[test]
fn user_transform_appends_tagged_output() {
    let mut v = Variables::new();
    v.add("plan", "step 1");
    let mut content = "Fix the bug".to_string();
    assert!(append_user_transform(&mut content, &v, "plan").is_ok());
    assert_eq!(content, "Fix the bug\n<plan>\n\"step 1\"\n</plan>");
    let before = content.clone();
    assert!(matches!(
        append_user_transform(&mut content, &v, "other"),
        Err(OrchestratorError::UndefinedVariable(ref k)) if k == "other"
    ));
    assert_eq!(content, before);
}

fn result(name: &str) -> ToolResult {
    ToolResult { name: name.to_string(), call_id: None, content: String::new(), is_error: false }
}

#[test]
fn rounds_end_when_no_call_gives_a_result() {
    let kept = Agent { id: "a".to_string(), tools: vec![], ephemeral: false };
    let r = finish_round(&kept, vec![Some(result("x")), None, Some(result("y"))]);
    let names: Vec<&str> = r.results.iter().map(|t| t.name.as_str()).collect();
    assert_eq!(names, vec!["x", "y"]);
    assert!(r.keep_context);
    assert!(!r.done);

    let eph = Agent { id: "b".to_string(), tools: vec![], ephemeral: true };
    let r = finish_round(&eph, vec![None, None]);
    assert!(r.results.is_empty());
    assert!(!r.keep_context);
    assert!(r.done);
}

#[test]
fn only_kept_agents_reuse_their_context() {
    let kept = Agent { id: "a".to_string(), tools: vec![], ephemeral: false };
    let eph = Agent { id: "b".to_string(), tools: vec![], ephemeral: true };
    assert!(matches!(context_source(&kept, true), ContextSource::Kept));
    assert!(matches!(context_source(&kept, false), ContextSource::Fresh));
    assert!(matches!(context_source(&eph, true), ContextSource::Fresh));
}

#[test]
fn read_values_are_escaped_as_json_strings() {
    let mut o = Orchestrator::new(vec![]);
    let w = WriteVariable { name: "v".to_string(), value: "a\\b\n\t\u{1}\u{1f} é".to_string() };
    o.write_variable(&call("forge_write_variable", None), &w);
    let rr = o.read_variable(&call("forge_read_variable", None), &ReadVariable { name: "v".to_string() });
    assert_eq!(rr.content, "\"a\\\\b\\n\\t\\u0001\\u001f é\"");
}
