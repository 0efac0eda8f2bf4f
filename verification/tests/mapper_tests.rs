use clrd::mapper::{plan_reference, ContextFiles, Mapper};

#[test]
fn test_mapper_init_fresh() {
    let mapper = Mapper::new("/tmp/project");

    let files = ContextFiles { agent_md: None, cursorrules: None };
    let plan = mapper.init(false, &files);

    // Only clrd.md should be created.
    assert_eq!(plan.report.created.len(), 1);
    assert!(plan.report.created.contains(&"clrd.md".to_string()));
    assert!(!plan.clrd_md.is_empty());

    // No updates since no existing files.
    assert!(plan.report.updated.is_empty());
}

// An existing context file without the marker gets the reference
// appended; its old content stays in front.
#[test]
fn mapper_init_appends_reference() {
    let mapper = Mapper::new("/tmp/project");
    let files = ContextFiles {
        agent_md: Some("# My Project\n\nSome content".to_string()),
        cursorrules: None,
    };
    let plan = mapper.init(false, &files);

    assert!(plan.report.updated.iter().any(|s| s.contains("agent.md")));
    let updated = plan.agent_md.unwrap();
    assert!(updated.starts_with("# My Project\n\nSome content"));
    assert!(updated.contains("clrd.md"));
    assert!(plan.cursorrules.is_none());
}

// A context file that already references the guide is left alone.
#[test]
fn mapper_init_no_duplicate_reference() {
    let mapper = Mapper::new("/tmp/project");
    let files = ContextFiles {
        agent_md: Some("# My Project\n\nSee clrd.md for info".to_string()),
        cursorrules: None,
    };
    let plan = mapper.init(false, &files);

    assert!(!plan.report.updated.iter().any(|s| s.contains("agent.md")));
    assert!(plan.agent_md.is_none());
}

// The planned guide file itself holds the marker, so a second init
// never stacks references.
#[test]
fn mapper_reference_is_idempotent() {
    let mapper = Mapper::new("/tmp/project");
    let first = mapper.init(
        false,
        &ContextFiles { agent_md: Some("# P".to_string()), cursorrules: Some(String::new()) },
    );
    let second = mapper.init(
        false,
        &ContextFiles {
            agent_md: first.agent_md.clone(),
            cursorrules: first.cursorrules.clone(),
        },
    );
    assert!(second.agent_md.is_none());
    assert!(second.cursorrules.is_none());
    assert!(second.report.updated.is_empty());
}

// The reference planner is usable for any further context file: it
// appends once and then leaves the file alone.
#[test]
fn plan_reference_for_any_context_file() {
    let first = plan_reference(&Some("# Notes".to_string()), "\n\nSee clrd.md.\n");
    let updated = first.unwrap();
    assert_eq!(updated, "# Notes\n\nSee clrd.md.\n");
    assert_eq!(plan_reference(&Some(updated), "\n\nSee clrd.md.\n"), None);
    assert_eq!(plan_reference(&None, "\n\nSee clrd.md.\n"), None);
}
