//! Sidebar sections, their collapse state, plugin sections and counts.

use ucode_tui::sidebar::{
    icon_strip_badge, section_summary, AgentEntry, AgentStatus, AgentsData, FileDiff, JobEntry, JobStatus, JobsData,
    McpData, McpServerEntry, McpServerStatus, PluginSidebarSection, SectionId, SectionState,
    BadgeStyle, SidebarData, ToolEntry, WorkspaceData,
};
use ucode_tui::transcript::ToolCallStatus;

#[test]
fn section_id_titles() {
    let expected = [
        (SectionId::Router, "ROUTER"),
        (SectionId::Skill, "SKILL"),
        (SectionId::Context, "CONTEXT"),
        (SectionId::Workspace, "WORKSPACE"),
        (SectionId::Tools, "TOOLS"),
        (SectionId::Agents, "AGENTS"),
        (SectionId::Network, "NETWORK"),
        (SectionId::Jobs, "JOBS"),
        (SectionId::Mcp, "MCP SERVERS"),
    ];
    for (id, title) in expected {
        assert_eq!(id.title(), title, "title mismatch for {id:?}");
    }
}

#[test]
fn section_id_icons() {
    let expected = [
        (SectionId::Router, 'R'),
        (SectionId::Skill, 'S'),
        (SectionId::Context, 'C'),
        (SectionId::Workspace, 'W'),
        (SectionId::Tools, 'T'),
        (SectionId::Agents, 'A'),
        (SectionId::Network, 'N'),
        (SectionId::Jobs, 'J'),
        (SectionId::Mcp, 'M'),
    ];
    for (id, icon) in expected {
        assert_eq!(id.icon(), icon, "icon mismatch for {id:?}");
    }
}

#[test]
fn section_toggle() {
    let mut s = SectionState {
        id: SectionId::Router,
        collapsed: false,
    };
    assert!(!s.collapsed);
    s.toggle();
    assert!(s.collapsed);
    s.toggle();
    assert!(!s.collapsed);
}

#[test]
fn sidebar_data_new_all_expanded() {
    let data = SidebarData::new();
    assert_eq!(data.sections.len(), 9);
    for s in &data.sections {
        assert!(!s.collapsed, "section {:?} should start expanded", s.id);
    }
}

#[test]
fn sidebar_data_toggle_section() {
    let mut data = SidebarData::new();
    assert!(!data.is_collapsed(SectionId::Router));
    data.toggle_section(SectionId::Router);
    assert!(data.is_collapsed(SectionId::Router));
    // Other sections unaffected.
    assert!(!data.is_collapsed(SectionId::Skill));
}

#[test]
fn workspace_totals() {
    let data = WorkspaceData {
        files: vec![
            FileDiff {
                path: "a.rs".into(),
                additions: 10,
                deletions: 2,
            },
            FileDiff {
                path: "b.rs".into(),
                additions: 5,
                deletions: 3,
            },
        ],
        checkpoint_age: None,
    };
    assert_eq!(data.total_additions(), 15);
    assert_eq!(data.total_deletions(), 5);
}

#[test]
fn agents_count_by_status() {
    let data = AgentsData {
        entries: vec![
            AgentEntry {
                name: "a".into(),
                status: AgentStatus::Done,
                duration: None,
                depth: 0,
            },
            AgentEntry {
                name: "b".into(),
                status: AgentStatus::Running,
                duration: None,
                depth: 1,
            },
            AgentEntry {
                name: "c".into(),
                status: AgentStatus::Running,
                duration: None,
                depth: 1,
            },
            AgentEntry {
                name: "d".into(),
                status: AgentStatus::Failed,
                duration: None,
                depth: 0,
            },
        ],
    };
    assert_eq!(data.count_by_status(), (1, 2, 1));
}

#[test]
fn jobs_running_count() {
    let data = JobsData {
        entries: vec![
            JobEntry {
                name: "build".into(),
                command: "cargo build".into(),
                status: JobStatus::Running,
                elapsed: None,
            },
            JobEntry {
                name: "test".into(),
                command: "cargo test".into(),
                status: JobStatus::Done,
                elapsed: Some("3s".into()),
            },
            JobEntry {
                name: "lint".into(),
                command: "cargo clippy".into(),
                status: JobStatus::Running,
                elapsed: None,
            },
        ],
    };
    assert_eq!(data.running_count(), 2);
}

#[test]
fn mcp_active_count() {
    let data = McpData {
        servers: vec![
            McpServerEntry {
                name: "fs".into(),
                trust: "trusted".into(),
                status: McpServerStatus::Running,
            },
            McpServerEntry {
                name: "web".into(),
                trust: "untrusted".into(),
                status: McpServerStatus::Stopped,
            },
            McpServerEntry {
                name: "db".into(),
                trust: "trusted".into(),
                status: McpServerStatus::Running,
            },
        ],
    };
    assert_eq!(data.active_count(), 2);
}

#[test]
fn plugin_sidebar_section_creation() {
    let section = PluginSidebarSection {
        plugin_name: "my-plugin".into(),
        section_id: "my-plugin-stats".into(),
        title: "MY STATS".into(),
        lines: vec!["  value: 42".into()],
        priority: 50,
        collapsed: false,
    };
    assert_eq!(section.plugin_name, "my-plugin");
    assert_eq!(section.section_id, "my-plugin-stats");
    assert_eq!(section.title, "MY STATS");
    assert_eq!(section.lines.len(), 1);
    assert_eq!(section.priority, 50);
    assert!(!section.collapsed);
}

#[test]
fn register_plugin_section_adds_section() {
    let mut data = SidebarData::new();
    assert!(data.plugin_sections.is_empty());
    data.register_plugin_section(PluginSidebarSection {
        plugin_name: "code-analyzer".into(),
        section_id: "code-analyzer-stats".into(),
        title: "CODE ANALYSIS".into(),
        lines: vec!["  complexity: 12".into()],
        priority: 100,
        collapsed: false,
    });
    assert_eq!(data.plugin_sections.len(), 1);
    assert_eq!(data.plugin_sections[0].section_id, "code-analyzer-stats");
}

#[test]
fn register_plugin_section_replaces_by_section_id() {
    let mut data = SidebarData::new();
    data.register_plugin_section(PluginSidebarSection {
        plugin_name: "code-analyzer".into(),
        section_id: "code-analyzer-stats".into(),
        title: "OLD TITLE".into(),
        lines: vec![],
        priority: 100,
        collapsed: false,
    });
    data.register_plugin_section(PluginSidebarSection {
        plugin_name: "code-analyzer".into(),
        section_id: "code-analyzer-stats".into(),
        title: "NEW TITLE".into(),
        lines: vec!["  updated".into()],
        priority: 50,
        collapsed: false,
    });
    assert_eq!(data.plugin_sections.len(), 1, "should replace, not add");
    assert_eq!(data.plugin_sections[0].title, "NEW TITLE");
    assert_eq!(data.plugin_sections[0].priority, 50);
}

#[test]
fn remove_plugin_sections_removes_by_plugin_name() {
    let mut data = SidebarData::new();
    data.register_plugin_section(PluginSidebarSection {
        plugin_name: "plugin-a".into(),
        section_id: "a-section".into(),
        title: "A".into(),
        lines: vec![],
        priority: 100,
        collapsed: false,
    });
    data.register_plugin_section(PluginSidebarSection {
        plugin_name: "plugin-b".into(),
        section_id: "b-section".into(),
        title: "B".into(),
        lines: vec![],
        priority: 100,
        collapsed: false,
    });
    assert_eq!(data.plugin_sections.len(), 2);
    data.remove_plugin_sections("plugin-a");
    assert_eq!(data.plugin_sections.len(), 1);
    assert_eq!(data.plugin_sections[0].plugin_name, "plugin-b");
}

#[test]
fn clear_plugin_sections_removes_all() {
    let mut data = SidebarData::new();
    data.register_plugin_section(PluginSidebarSection {
        plugin_name: "plugin-a".into(),
        section_id: "a-section".into(),
        title: "A".into(),
        lines: vec![],
        priority: 100,
        collapsed: false,
    });
    data.register_plugin_section(PluginSidebarSection {
        plugin_name: "plugin-b".into(),
        section_id: "b-section".into(),
        title: "B".into(),
        lines: vec![],
        priority: 100,
        collapsed: false,
    });
    assert_eq!(data.plugin_sections.len(), 2);
    data.clear_plugin_sections();
    assert!(data.plugin_sections.is_empty());
}

#[test]
fn section_summary_tools_no_pending() {
    let mut data = SidebarData::new();
    data.tools.entries = vec![ToolEntry {
        name: "read_file".into(),
        status: ToolCallStatus::Success,
        duration: Some("0.1s".into()),
    }];
    let summary = section_summary(SectionId::Tools, &data).unwrap();
    assert_eq!(summary, "1 calls");
}

#[test]
fn section_summary_tools_with_pending() {
    let mut data = SidebarData::new();
    data.tools.entries = vec![
        ToolEntry {
            name: "read_file".into(),
            status: ToolCallStatus::Success,
            duration: Some("0.1s".into()),
        },
        ToolEntry {
            name: "run_cmd".into(),
            status: ToolCallStatus::PendingApproval,
            duration: None,
        },
    ];
    let summary = section_summary(SectionId::Tools, &data).unwrap();
    assert_eq!(summary, "2 calls, 1 pending");
}

#[test]
fn section_summary_other_sections() {
    let mut data = SidebarData::new();
    assert_eq!(section_summary(SectionId::Router, &data), None);
    assert_eq!(section_summary(SectionId::Context, &data), None);
    assert_eq!(section_summary(SectionId::Skill, &data).unwrap(), "none");
    data.skill.name = Some("refactor".into());
    assert_eq!(section_summary(SectionId::Skill, &data).unwrap(), "refactor");

    data.workspace.files = vec![
        FileDiff { path: "a.rs".into(), additions: 12, deletions: 3 },
        FileDiff { path: "b.rs".into(), additions: 30, deletions: 0 },
    ];
    assert_eq!(section_summary(SectionId::Workspace, &data).unwrap(), "2 files +42 -3");

    data.agents.entries = vec![
        AgentEntry { name: "a".into(), status: AgentStatus::Running, duration: None, depth: 0 },
        AgentEntry { name: "b".into(), status: AgentStatus::Done, duration: None, depth: 1 },
        AgentEntry { name: "c".into(), status: AgentStatus::Done, duration: None, depth: 1 },
    ];
    assert_eq!(
        section_summary(SectionId::Agents, &data).unwrap(),
        "1 running, 2 done, 0 failed"
    );

    assert_eq!(section_summary(SectionId::Network, &data).unwrap(), "0 conn");
    data.network.egress = true;
    data.network.connections = vec![("a".into(), "example.org".into())];
    assert_eq!(section_summary(SectionId::Network, &data).unwrap(), "1 conn, egress on");

    data.jobs.entries = vec![JobEntry {
        name: "build".into(),
        command: "make".into(),
        status: JobStatus::Running,
        elapsed: None,
    }];
    assert_eq!(section_summary(SectionId::Jobs, &data).unwrap(), "1 running");

    data.mcp.servers = vec![
        McpServerEntry {
            name: "fs".into(),
            trust: "trusted".into(),
            status: McpServerStatus::Running,
        },
        McpServerEntry {
            name: "web".into(),
            trust: "untrusted".into(),
            status: McpServerStatus::Stopped,
        },
    ];
    assert_eq!(section_summary(SectionId::Mcp, &data).unwrap(), "1/2 active");
}

#[test]
fn icon_strip_badges() {
    let mut data = SidebarData::new();
    for id in SectionId::all() {
        assert_eq!(icon_strip_badge(id, &data), (String::new(), BadgeStyle::Plain));
    }
    data.tools.entries = vec![ToolEntry {
        name: "run_cmd".into(),
        status: ToolCallStatus::PendingApproval,
        duration: None,
    }];
    assert_eq!(
        icon_strip_badge(SectionId::Tools, &data),
        ("\u{26a0}".to_string(), BadgeStyle::Warning)
    );
    data.agents.entries = vec![AgentEntry {
        name: "agent-a".into(),
        status: AgentStatus::Running,
        duration: None,
        depth: 0,
    }];
    assert_eq!(
        icon_strip_badge(SectionId::Agents, &data),
        ("\u{27f3}".to_string(), BadgeStyle::Accent)
    );
    data.jobs.entries = vec![
        JobEntry {
            name: "test".into(),
            command: "cargo test".into(),
            status: JobStatus::Running,
            elapsed: None,
        },
        JobEntry {
            name: "build".into(),
            command: "npm build".into(),
            status: JobStatus::Running,
            elapsed: None,
        },
    ];
    assert_eq!(icon_strip_badge(SectionId::Jobs, &data), ("2".to_string(), BadgeStyle::Accent));
    data.mcp.servers = vec![McpServerEntry {
        name: "fs".into(),
        trust: "trusted".into(),
        status: McpServerStatus::Running,
    }];
    assert_eq!(icon_strip_badge(SectionId::Mcp, &data), ("1".to_string(), BadgeStyle::Safe));
    assert_eq!(icon_strip_badge(SectionId::Router, &data), (String::new(), BadgeStyle::Plain));
}
