use acp_agent::jail::JailPlan;
use acp_agent::task::{agent_cwd_plan, TaskOpError, TaskRegistry, REGISTRY_MAX};

#[test]
fn tasks_are_reachable_only_by_their_creator() {
    let mut reg = TaskRegistry::new();
    reg.insert("t1", "peer-a");
    assert_eq!(reg.lookup("peer-a", "t1"), Ok(()));
    assert_eq!(reg.lookup("peer-b", "t1"), Err(TaskOpError::TaskUnknown));
    assert_eq!(reg.lookup("peer-a", "t2"), Err(TaskOpError::TaskUnknown));
    reg.remove("t1");
    assert_eq!(reg.lookup("peer-a", "t1"), Err(TaskOpError::TaskUnknown));
}

#[test]
fn a_full_registry_drops_the_oldest_ended_task() {
    let mut reg = TaskRegistry::new();
    for i in 0..REGISTRY_MAX {
        reg.insert(&format!("t{i}"), "p");
    }
    reg.mark_ended("t5");
    reg.mark_ended("t9");
    reg.insert("new", "p");
    assert!(reg.lookup("p", "t5").is_err(), "the oldest ended task leaves");
    assert_eq!(reg.lookup("p", "t9"), Ok(()));
    assert_eq!(reg.lookup("p", "t0"), Ok(()), "live tasks stay");
    assert_eq!(reg.lookup("p", "new"), Ok(()));
}

#[test]
fn a_full_registry_of_live_tasks_keeps_them() {
    let mut reg = TaskRegistry::new();
    for i in 0..REGISTRY_MAX {
        reg.insert(&format!("t{i}"), "p");
    }
    reg.insert("extra", "p");
    assert_eq!(reg.lookup("p", "t0"), Ok(()));
    assert_eq!(reg.lookup("p", "extra"), Ok(()));
}

#[test]
fn remote_agents_run_in_their_sandbox() {
    assert_eq!(agent_cwd_plan("/srv/sandbox", true, "x"), JailPlan::Inherit);
    assert_eq!(
        agent_cwd_plan("/srv/sandbox", false, "code/review"),
        JailPlan::Sandbox { root: "/srv/sandbox".into(), peer_dir: "agent-code_review".into() }
    );
}
