use aivyx::json::Json;
use aivyx::outcome::ToolId;
use aivyx::planner::{NextStep, Tool, ToolRegistry, VecPlanner};
use aivyx::tools::routing::{RoutingExplainTool, RoutingStatusTool};
use aivyx::tools::skill_defaults::{SkillDefaultsListTool, SkillDefaultsReadTool};

fn fs_read() -> Tool {
    Tool {
        id: ToolId::new(),
        name: "fs.read".to_string(),
        description: "Read a UTF-8 file under the agent's sandbox root.".to_string(),
        input_schema: Json::Object(vec![
            ("required".to_string(), Json::Array(vec![Json::Str("path".to_string())])),
            ("type".to_string(), Json::Str("object".to_string())),
        ]),
    }
}

#[test]
fn concrete_tool_is_reachable_through_every_registry_lookup_path() {
    let tool = fs_read();
    let id = tool.id;
    let registry = ToolRegistry::new(vec![tool]);
    assert!(!registry.is_empty());

    let found_id = registry.find_by_name("fs.read").expect("fs.read must be findable by name");
    assert_eq!(found_id, id);
    let found = registry.get(found_id).expect("id lookup must return the tool");
    assert_eq!(found.name, "fs.read");

    let snapshot = registry.snapshot();
    let names: Vec<&str> = snapshot.iter().map(|t| t.name.as_str()).collect();
    assert_eq!(names, vec!["fs.read"]);

    assert_eq!(found.input_schema.get_str("type"), Some(&"object".to_string()));
    assert_eq!(
        found.input_schema.get_array("required"),
        Some(&vec![Json::Str("path".to_string())])
    );
}

#[test]
fn replace_tools_hot_swaps_by_id() {
    let (keep, drop_me, added) = (fs_read(), fs_read(), fs_read());
    let (keep_id, drop_id, added_id) = (keep.id, drop_me.id, added.id);
    let mut registry = ToolRegistry::new(vec![keep, drop_me]);
    assert_eq!(registry.snapshot().len(), 2);

    assert_eq!(registry.replace_tools(&vec![drop_id], vec![added]), (1, 1));

    assert!(registry.get(keep_id).is_some());
    assert!(registry.get(added_id).is_some());
    assert!(registry.get(drop_id).is_none());
    assert_eq!(registry.snapshot().len(), 2);
}

#[test]
fn a_replacement_of_nothing_changes_nothing() {
    let tool = fs_read();
    let id = tool.id;
    let mut registry = ToolRegistry::new(vec![tool]);
    assert_eq!(registry.replace_tools(&vec![ToolId(0)], vec![]), (0, 0));
    assert!(registry.get(id).is_some());
    assert_eq!(registry.len(), 1);
}

#[test]
fn the_first_of_two_tools_with_one_name_is_found() {
    let (first, second) = (fs_read(), fs_read());
    let id = first.id;
    let registry = ToolRegistry::new(vec![first, second]);
    assert_eq!(registry.find_by_name("fs.read"), Some(id));
    assert_eq!(registry.find_by_name("fs.write"), None);
    assert!(ToolRegistry::new(vec![]).is_empty());
}

#[test]
fn ids_differ() {
    assert_ne!(ToolId::new(), ToolId::new());
}

#[test]
fn a_script_is_walked_and_then_stops() {
    let mut planner = VecPlanner::new(vec![
        NextStep::FinalMessage("one".to_string()),
        NextStep::FinalMessage("two".to_string()),
    ]);
    assert_eq!(planner.next_step(), NextStep::FinalMessage("one".to_string()));
    assert_eq!(planner.next_step(), NextStep::FinalMessage("two".to_string()));
    assert_eq!(planner.next_step(), NextStep::Stop);
    assert_eq!(planner.next_step(), NextStep::Stop);
}

#[test]
fn tool_ids_are_random_uuids() {
    for id in [
        ToolId::new(),
        RoutingStatusTool::new().id(),
        RoutingExplainTool::new().id(),
        SkillDefaultsListTool::new().id(),
        SkillDefaultsReadTool::new().id(),
    ] {
        assert_eq!((id.0 >> 76) & 0xf, 4);
        assert_eq!((id.0 >> 62) & 0x3, 2);
        let uuid = uuid::Uuid::from_u128(id.0);
        assert_eq!(uuid.get_version(), Some(uuid::Version::Random));
        assert_eq!(uuid.get_variant(), uuid::Variant::RFC4122);
    }
    assert_ne!(ToolId::new(), ToolId::new());
}
