use acp_agent::bridge::{ask_route, BridgeAction, BridgeCmd, LineOutcome, PromptCtx, TaskEnd};
use acp_agent::permission::{AskRoute, PermissionOption, RpcMessage};

fn answer(id: &str) -> RpcMessage {
    RpcMessage { has_method: false, method: None, id: Some(id.into()), session_id: None, update_kind: None, tool_kind: None, options: None }
}

fn chunk() -> RpcMessage {
    RpcMessage {
        has_method: true,
        method: Some("session/update".into()),
        id: None,
        session_id: Some("s".into()),
        update_kind: Some("agent_message_chunk".into()),
        tool_kind: None,
        options: None,
    }
}

fn ask(id: &str, kind: &str) -> RpcMessage {
    RpcMessage {
        has_method: true,
        method: Some("session/request_permission".into()),
        id: Some(id.into()),
        session_id: None,
        update_kind: None,
        tool_kind: Some(kind.into()),
        options: Some(vec![PermissionOption { kind: Some("allow_once".into()), option_id: Some("\"ok\"".into()) }]),
    }
}

#[test]
fn prompts_run_one_at_a_time_in_order() {
    let mut ctx = PromptCtx::new();
    let (a, end) = ctx.on_command(Some(BridgeCmd::Prompt("first".into())));
    assert_eq!(a, Some(BridgeAction::StartPrompt { id: 1, text: "first".into() }));
    assert_eq!(end, None);
    let (a, _) = ctx.on_command(Some(BridgeCmd::Prompt("second".into())));
    assert_eq!(a, None, "queued behind the prompt in flight");
    let (actions, outcome) = ctx.on_child_line(&answer("1"), true, 0, 1000);
    assert_eq!(outcome, LineOutcome::Continue);
    assert_eq!(actions, vec![BridgeAction::StartPrompt { id: 2, text: "second".into() }]);
    let (actions, outcome) = ctx.on_child_line(&answer("2"), true, 0, 1000);
    assert!(actions.is_empty());
    assert_eq!(outcome, LineOutcome::End(TaskEnd::Completed));
}

#[test]
fn cancel_and_closed_channel_end_the_task() {
    let mut ctx = PromptCtx::new();
    assert_eq!(ctx.on_command(Some(BridgeCmd::Cancel)), (None, Some(TaskEnd::Cancelled)));
    assert_eq!(ctx.on_command(None), (None, Some(TaskEnd::Failed)));
}

#[test]
fn remote_agents_never_forward_asks() {
    assert_eq!(ask_route(false), AskRoute::OwnerLocal);
    assert_eq!(ask_route(true), AskRoute::RemoteGui);
    let mut ctx = PromptCtx::new();
    let (actions, _) = ctx.on_child_line(&ask("9", "execute"), false, 0, 1000);
    assert_eq!(actions.len(), 2);
    assert!(matches!(&actions[0], BridgeAction::AuditPermission { action, .. } if *action == "owner-local"));
    assert!(ctx.due(u64::MAX).is_empty());
}

#[test]
fn forwarded_ask_times_out_as_reject_once() {
    let mut ctx = PromptCtx::new();
    let (actions, outcome) = ctx.on_child_line(&ask("9", "execute"), true, 100, 50);
    assert_eq!(outcome, LineOutcome::Continue);
    assert_eq!(actions, vec![BridgeAction::AuditPermission { action: "forwarded", tool_kind: "execute".into() }]);
    assert!(ctx.due(149).is_empty());
    let due = ctx.due(150);
    assert_eq!(due.len(), 1);
    assert_eq!(due[0].0, "9");
    assert_eq!(due[0].1, "{\"id\":9,\"jsonrpc\":\"2.0\",\"result\":{\"outcome\":{\"outcome\":\"cancelled\"}}}");
    ctx.settle("9");
    assert!(ctx.due(u64::MAX).is_empty());
}

#[test]
fn an_answer_settles_its_forwarded_ask() {
    let mut ctx = PromptCtx::new();
    ctx.on_child_line(&ask("9", "edit"), true, 0, 10);
    let (actions, outcome) = ctx.on_child_line(&answer("9"), true, 0, 10);
    assert!(actions.is_empty());
    assert_eq!(outcome, LineOutcome::Continue);
    assert!(ctx.due(u64::MAX).is_empty());
}

#[test]
fn think_is_answered_by_the_bridge_and_chunks_go_to_the_host() {
    let mut ctx = PromptCtx::new();
    let (actions, _) = ctx.on_child_line(&ask("3", "think"), false, 0, 10);
    assert_eq!(
        actions[1],
        BridgeAction::Answer(
            "{\"id\":3,\"jsonrpc\":\"2.0\",\"result\":{\"outcome\":{\"optionId\":\"ok\",\"outcome\":\"selected\"}}}".into()
        )
    );
    let (actions, outcome) = ctx.on_child_line(&chunk(), false, 0, 10);
    assert!(actions.is_empty());
    assert_eq!(outcome, LineOutcome::Chunk);
}

#[test]
fn ids_count_up() {
    let mut ctx = PromptCtx::new();
    assert_eq!(ctx.take_id(), 1);
    assert_eq!(ctx.take_id(), 2);
    assert_eq!(ctx.start_prompt(), None);
}
