use calculator_rag::num::Num;
use calculator_rag::tools::lookup::Lookup;
use calculator_rag::tools::registry::{ToolArgs, ToolError, ToolOutput, ToolRegistry};
use calculator_rag::tools::{MathError, OperationArgs};
use calculator_rag::utils::agent::{
    tool_result_message, user_text_message, AssistantItem, Message, ModelRequest, MultiTurnAgent,
    ToolCall, ToolResult, TurnStep, UserItem,
};
use calculator_rag::utils::index::{EmbeddedDocument, SemanticIndex, VectorStore};

fn empty_index() -> SemanticIndex {
    VectorStore::new(Vec::new(), 3).index().expect("empty corpus is coherent")
}

fn corpus_index() -> SemanticIndex {
    let docs = vec![EmbeddedDocument {
        id: "doc0".to_string(),
        label: "flurbo".to_string(),
        entries: vec!["a fictional currency".to_string()],
        vector: vec![10, 0, 0],
    }];
    VectorStore::new(docs, 3).index().expect("coherent corpus")
}

fn fresh_agent() -> MultiTurnAgent {
    MultiTurnAgent::new(ToolRegistry::new(Lookup::new(empty_index())), 1)
}

fn assistant_text(m: &Message) -> Option<String> {
    match m {
        Message::Assistant { content } => match content.as_slice() {
            [AssistantItem::Text(t)] => Some(t.clone()),
            _ => None,
        },
        _ => None,
    }
}

#[test]
fn pure_text_response_returns_it_unchanged() {
    let mut agent = fresh_agent();
    let prompt = user_text_message("What is a flurbo?".to_string());
    let step = agent.handle_response(prompt, vec![AssistantItem::Text("A currency.".to_string())]);
    match step {
        TurnStep::Finished(t) => assert_eq!(t, "A currency."),
        _ => panic!("expected a finished turn"),
    }
    // Exactly two messages: the prompt and one assistant message.
    assert_eq!(agent.chat_history.len(), 2);
    assert_eq!(assistant_text(&agent.chat_history[1]), Some("A currency.".to_string()));
}

#[test]
fn later_text_overwrites_earlier_text() {
    let mut agent = fresh_agent();
    let prompt = user_text_message("think step by step".to_string());
    let step = agent.handle_response(
        prompt,
        vec![
            AssistantItem::Text("first thought".to_string()),
            AssistantItem::Text("final answer".to_string()),
        ],
    );
    match step {
        TurnStep::Finished(t) => assert_eq!(t, "final answer"),
        _ => panic!("expected a finished turn"),
    }
    // Both intermediate texts are kept in the history as assistant messages.
    assert_eq!(agent.chat_history.len(), 3);
    assert_eq!(assistant_text(&agent.chat_history[1]), Some("first thought".to_string()));
    assert_eq!(assistant_text(&agent.chat_history[2]), Some("final answer".to_string()));
}

#[test]
fn empty_response_continues_the_loop() {
    let mut agent = fresh_agent();
    let prompt = user_text_message("hello".to_string());
    let step = agent.handle_response(prompt, vec![]);
    assert!(matches!(step, TurnStep::Continue));
    assert_eq!(agent.chat_history.len(), 1);
}

#[test]
fn only_the_first_tool_call_is_executed() {
    let mut agent = fresh_agent();
    let prompt = user_text_message("compute".to_string());
    let step = agent.handle_response(
        prompt,
        vec![
            AssistantItem::Text("let me think".to_string()),
            AssistantItem::Call(ToolCall {
                id: "c1".to_string(),
                name: "add".to_string(),
                arguments: "{\"x\":1,\"y\":2}".to_string(),
            }),
            AssistantItem::Text("ignored".to_string()),
            AssistantItem::Call(ToolCall {
                id: "c2".to_string(),
                name: "divide".to_string(),
                arguments: "{}".to_string(),
            }),
        ],
    );
    match step {
        TurnStep::Invoke(call) => assert_eq!(call.id, "c1"),
        _ => panic!("expected a tool call"),
    }
    // Prompt, the thinking text, and the call: the rest is dropped.
    assert_eq!(agent.chat_history.len(), 3);
}

#[test]
fn subtract_tool_round_trip() {
    // A scripted two-round turn: the model first requests subtract(5, 2),
    // then answers with the text "3".
    let mut agent = fresh_agent();
    let prompt = user_text_message("Calculate 5 - 2 = ?".to_string());
    let step = agent.handle_response(
        prompt,
        vec![AssistantItem::Call(ToolCall {
            id: "call-7".to_string(),
            name: "subtract".to_string(),
            arguments: "{\"x\":5,\"y\":2}".to_string(),
        })],
    );
    let call = match step {
        TurnStep::Invoke(call) => call,
        _ => panic!("expected a tool call"),
    };
    let args = ToolArgs::Operation(OperationArgs {
        x: Num { hundredths: 500 },
        y: Num { hundredths: 200 },
    });
    let output = agent.registry.dispatch(&call.name, &args).expect("subtract succeeds");
    match &output {
        ToolOutput::Number(n) => assert_eq!(*n, Num { hundredths: 300 }),
        _ => panic!("expected a number"),
    }
    let next = tool_result_message(&call, output);
    let step = agent.handle_response(next, vec![AssistantItem::Text("3".to_string())]);
    match step {
        TurnStep::Finished(t) => assert_eq!(t, "3"),
        _ => panic!("expected a finished turn"),
    }
    // Exactly four messages: prompt, tool call, tool result, final text.
    assert_eq!(agent.chat_history.len(), 4);
    match &agent.chat_history[1] {
        Message::Assistant { content } => match content.as_slice() {
            [AssistantItem::Call(c)] => assert_eq!(c.id, "call-7"),
            _ => panic!("expected the tool call message"),
        },
        _ => panic!("expected an assistant message"),
    }
    match &agent.chat_history[2] {
        Message::User { content } => match content.as_slice() {
            [UserItem::Result { id, result }] => {
                assert_eq!(id, "call-7");
                assert_eq!(result.name, "subtract");
                match &result.output {
                    ToolOutput::Number(n) => assert_eq!(*n, Num { hundredths: 300 }),
                    _ => panic!("expected a number result"),
                }
            }
            _ => panic!("expected the tool result message"),
        },
        _ => panic!("expected a user message"),
    }
    assert_eq!(assistant_text(&agent.chat_history[3]), Some("3".to_string()));
}

#[test]
fn end_to_end_subtract_answer_contains_three() {
    // The whole scripted conversation: the query drives a subtract(5, 2)
    // call producing 3.00, and the final text mentions it.
    let mut agent = fresh_agent();
    let mut current = user_text_message("Calculate 5 - 2 = ?. Describe the result to me.".to_string());
    let scripted: Vec<Vec<AssistantItem>> = vec![
        vec![AssistantItem::Call(ToolCall {
            id: "c0".to_string(),
            name: "subtract".to_string(),
            arguments: "{\"x\":5,\"y\":2}".to_string(),
        })],
        vec![AssistantItem::Text("5 - 2 is 3, a small whole number.".to_string())],
    ];
    let mut answer = None;
    for items in scripted {
        match agent.handle_response(current, items) {
            TurnStep::Finished(t) => {
                answer = Some(t);
                break;
            }
            TurnStep::Invoke(call) => {
                // The driver parses the arguments; here they are fixed.
                let args = ToolArgs::Operation(OperationArgs {
                    x: Num { hundredths: 500 },
                    y: Num { hundredths: 200 },
                });
                let output = agent.registry.dispatch(&call.name, &args).expect("tool runs");
                if let ToolOutput::Number(n) = &output {
                    assert_eq!(*n, Num { hundredths: 300 });
                }
                current = tool_result_message(&call, output);
            }
            TurnStep::Continue => panic!("scripted model always responds"),
        }
    }
    let answer = answer.expect("the conversation finishes");
    assert!(answer.contains("3"));
}

#[test]
fn clear_history_resets_to_a_fresh_agent() {
    let mut agent = fresh_agent();
    let prompt = user_text_message("first query".to_string());
    agent.handle_response(prompt, vec![AssistantItem::Text("first answer".to_string())]);
    assert_eq!(agent.chat_history.len(), 2);
    agent.clear_history();
    assert_eq!(agent.chat_history.len(), 0);
    // The next turn behaves exactly as on a fresh agent: same step, same
    // history, nothing of the earlier query left.
    let step = agent.handle_response(
        user_text_message("second query".to_string()),
        vec![AssistantItem::Text("second answer".to_string())],
    );
    let mut fresh = fresh_agent();
    let fresh_step = fresh.handle_response(
        user_text_message("second query".to_string()),
        vec![AssistantItem::Text("second answer".to_string())],
    );
    match (step, fresh_step) {
        (TurnStep::Finished(a), TurnStep::Finished(b)) => assert_eq!(a, b),
        _ => panic!("both turns finish"),
    }
    assert_eq!(agent.chat_history.len(), fresh.chat_history.len());
    for (m1, m2) in agent.chat_history.iter().zip(fresh.chat_history.iter()) {
        match (m1, m2) {
            (Message::User { content: c1 }, Message::User { content: c2 }) => {
                assert_eq!(c1.len(), c2.len());
            }
            (Message::Assistant { .. }, Message::Assistant { .. }) => {
                assert_eq!(assistant_text(m1), assistant_text(m2));
            }
            _ => panic!("histories diverge"),
        }
    }
    // clear_history is idempotent.
    agent.clear_history();
    agent.clear_history();
    assert_eq!(agent.chat_history.len(), 0);
}

#[test]
fn dispatch_unknown_tool_fails() {
    let agent = fresh_agent();
    let args = ToolArgs::Operation(OperationArgs {
        x: Num { hundredths: 100 },
        y: Num { hundredths: 100 },
    });
    let r = agent.registry.dispatch(&"exponentiate".to_string(), &args);
    assert_eq!(r.err(), Some(ToolError::UnknownTool));
}

#[test]
fn dispatch_wrong_payload_is_a_domain_error() {
    let agent = fresh_agent();
    let args = ToolArgs::Query(
        calculator_rag::tools::lookup::Args { lookup: "q".to_string() },
        vec![0, 0, 0],
    );
    let r = agent.registry.dispatch(&"add".to_string(), &args);
    assert_eq!(r.err(), Some(ToolError::Math(MathError)));
}

#[test]
fn dispatch_lookup_returns_the_document() {
    let agent = MultiTurnAgent::new(ToolRegistry::new(Lookup::new(corpus_index())), 1);
    let args = ToolArgs::Query(
        calculator_rag::tools::lookup::Args { lookup: "flurbo".to_string() },
        vec![10, 0, 0],
    );
    let out = agent.registry.dispatch(&"lookup".to_string(), &args).expect("a match exists");
    match out {
        ToolOutput::Document(d) => assert_eq!(d.label, "flurbo"),
        _ => panic!("expected a document"),
    }
}

#[test]
fn registry_advertises_five_tools_in_order() {
    let agent = fresh_agent();
    let ds = agent.registry.definitions();
    let names: Vec<String> = ds.iter().map(|d| d.name.clone()).collect();
    assert_eq!(names, vec!["add", "subtract", "multiply", "divide", "lookup"]);
}

#[test]
fn dynamic_context_injects_the_top_match() {
    let agent = MultiTurnAgent::new(ToolRegistry::new(Lookup::new(corpus_index())), 1);
    let hits = agent.dynamic_context(&vec![10, 0, 0]);
    assert_eq!(hits.len(), 1);
    assert_eq!(hits[0].label, "flurbo");
}

#[test]
fn tool_result_pairs_name_and_output() {
    let tr = ToolResult::from(("add".to_string(), ToolOutput::Number(Num { hundredths: 500 })));
    assert_eq!(tr.name, "add");
    match tr.output {
        ToolOutput::Number(n) => assert_eq!(n, Num { hundredths: 500 }),
        _ => panic!("expected a number"),
    }
}

#[test]
fn model_requests_are_deterministic() {
    let agent = fresh_agent();
    let req = ModelRequest::new(
        user_text_message("q".to_string()),
        Vec::new(),
        agent.registry.definitions(),
        Vec::new(),
    );
    assert_eq!(req.temperature, Num { hundredths: 0 });
    assert_eq!(req.tools.len(), 5);
}
