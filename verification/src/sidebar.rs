//! Sidebar sections: their ids, titles and icons, collapse state, plugin
//! sections, and the per-section data with its derived counts.

use vstd::prelude::*;

use crate::date::{decimal, push_decimal};
use crate::text::{chars_of, push_str_chars, str_eq, string_of};
use crate::transcript::ToolCallStatus;

verus! {

/// One of the built-in sidebar sections.
#[derive(Debug, Clone, Copy, PartialEq, Eq, Hash, Structural)]
pub enum SectionId {
    Router,
    Skill,
    Context,
    Workspace,
    Tools,
    Agents,
    Network,
    Jobs,
    Mcp,
}

impl SectionId {
    pub fn title(self) -> (r: &'static str)
        ensures
            r@ == match self {
                SectionId::Router => "ROUTER"@,
                SectionId::Skill => "SKILL"@,
                SectionId::Context => "CONTEXT"@,
                SectionId::Workspace => "WORKSPACE"@,
                SectionId::Tools => "TOOLS"@,
                SectionId::Agents => "AGENTS"@,
                SectionId::Network => "NETWORK"@,
                SectionId::Jobs => "JOBS"@,
                SectionId::Mcp => "MCP SERVERS"@,
            },
    {
        match self {
            SectionId::Router => "ROUTER",
            SectionId::Skill => "SKILL",
            SectionId::Context => "CONTEXT",
            SectionId::Workspace => "WORKSPACE",
            SectionId::Tools => "TOOLS",
            SectionId::Agents => "AGENTS",
            SectionId::Network => "NETWORK",
            SectionId::Jobs => "JOBS",
            SectionId::Mcp => "MCP SERVERS",
        }
    }

    pub fn icon(self) -> (c: char)
        ensures
            c == match self {
                SectionId::Router => 'R',
                SectionId::Skill => 'S',
                SectionId::Context => 'C',
                SectionId::Workspace => 'W',
                SectionId::Tools => 'T',
                SectionId::Agents => 'A',
                SectionId::Network => 'N',
                SectionId::Jobs => 'J',
                SectionId::Mcp => 'M',
            },
    {
        match self {
            SectionId::Router => 'R',
            SectionId::Skill => 'S',
            SectionId::Context => 'C',
            SectionId::Workspace => 'W',
            SectionId::Tools => 'T',
            SectionId::Agents => 'A',
            SectionId::Network => 'N',
            SectionId::Jobs => 'J',
            SectionId::Mcp => 'M',
        }
    }

    /// All sections, in display order.
    pub fn all() -> (r: Vec<SectionId>)
        ensures
            r@ == section_order(),
    {
        vec![
            SectionId::Router,
            SectionId::Skill,
            SectionId::Context,
            SectionId::Workspace,
            SectionId::Tools,
            SectionId::Agents,
            SectionId::Network,
            SectionId::Jobs,
            SectionId::Mcp,
        ]
    }
}

/// Whether a section is collapsed.
#[derive(Debug, Clone, Copy, PartialEq, Eq, Structural)]
pub struct SectionState {
    pub id: SectionId,
    pub collapsed: bool,
}

impl SectionState {
    pub fn toggle(&mut self)
        ensures
            final(self).id == old(self).id,
            final(self).collapsed == !old(self).collapsed,
    {
        self.collapsed = !self.collapsed;
    }
}

/// A section contributed by a plugin.
#[derive(Debug, Clone)]
pub struct PluginSidebarSection {
    pub plugin_name: String,
    pub section_id: String,
    pub title: String,
    pub lines: Vec<String>,
    /// Lower value = higher priority (rendered first). Default 100.
    pub priority: i32,
    pub collapsed: bool,
}

/// Active skill.
#[derive(Debug, Clone)]
pub struct SkillData {
    pub name: Option<String>,
    pub tools_allowed: u32,
    pub preferred_group: Option<String>,
}

/// Changed lines of one file.
#[derive(Debug, Clone)]
pub struct FileDiff {
    pub path: String,
    pub additions: u32,
    pub deletions: u32,
}

/// Sum of the additions of `files`.
pub open spec fn sum_additions(files: Seq<FileDiff>) -> nat
    decreases files.len(),
{
    if files.len() == 0 {
        0
    } else {
        sum_additions(files.drop_last()) + files.last().additions as nat
    }
}

/// Sum of the deletions of `files`.
pub open spec fn sum_deletions(files: Seq<FileDiff>) -> nat
    decreases files.len(),
{
    if files.len() == 0 {
        0
    } else {
        sum_deletions(files.drop_last()) + files.last().deletions as nat
    }
}

proof fn lemma_sum_mono(files: Seq<FileDiff>, i: int)
    requires
        0 <= i <= files.len(),
    ensures
        sum_additions(files.take(i)) <= sum_additions(files),
        sum_deletions(files.take(i)) <= sum_deletions(files),
    decreases files.len() - i,
{
    if i < files.len() {
        lemma_sum_mono(files, i + 1);
        assert(files.take(i + 1).drop_last() =~= files.take(i));
    } else {
        assert(files.take(i) =~= files);
    }
}

/// Changed files and the age of the last checkpoint.
#[derive(Debug, Clone)]
pub struct WorkspaceData {
    pub files: Vec<FileDiff>,
    /// Human-readable age of the last checkpoint, e.g. "2m ago".
    pub checkpoint_age: Option<String>,
}

impl WorkspaceData {
    pub fn total_additions(&self) -> (n: u32)
        requires
            sum_additions(self.files@) <= u32::MAX,
        ensures
            n == sum_additions(self.files@),
    {
        let len = self.files.len();
        let mut i: usize = 0;
        let mut acc: u32 = 0;
        while i < len
            invariant
                len == self.files@.len(),
                i <= len,
                acc == sum_additions(self.files@.take(i as int)),
                sum_additions(self.files@) <= u32::MAX,
            decreases len - i,
        {
            proof {
                assert(self.files@.take(i + 1).drop_last() =~= self.files@.take(i as int));
                lemma_sum_mono(self.files@, i + 1);
            }
            acc = acc + self.files[i].additions;
            i = i + 1;
        }
        proof {
            assert(self.files@.take(len as int) =~= self.files@);
        }
        acc
    }

    pub fn total_deletions(&self) -> (n: u32)
        requires
            sum_deletions(self.files@) <= u32::MAX,
        ensures
            n == sum_deletions(self.files@),
    {
        let len = self.files.len();
        let mut i: usize = 0;
        let mut acc: u32 = 0;
        while i < len
            invariant
                len == self.files@.len(),
                i <= len,
                acc == sum_deletions(self.files@.take(i as int)),
                sum_deletions(self.files@) <= u32::MAX,
            decreases len - i,
        {
            proof {
                assert(self.files@.take(i + 1).drop_last() =~= self.files@.take(i as int));
                lemma_sum_mono(self.files@, i + 1);
            }
            acc = acc + self.files[i].deletions;
            i = i + 1;
        }
        proof {
            assert(self.files@.take(len as int) =~= self.files@);
        }
        acc
    }
}

/// One tool call shown in the sidebar.
#[derive(Debug, Clone)]
pub struct ToolEntry {
    pub name: String,
    pub status: ToolCallStatus,
    pub duration: Option<String>,
}

#[derive(Debug, Clone)]
pub struct ToolsData {
    pub entries: Vec<ToolEntry>,
}

#[derive(Debug, Clone, Copy, PartialEq, Eq, Structural)]
pub enum AgentStatus {
    Done,
    Running,
    Failed,
}

#[derive(Debug, Clone)]
pub struct AgentEntry {
    pub name: String,
    pub status: AgentStatus,
    pub duration: Option<String>,
    /// 0 = root, 1 = child, etc.
    pub depth: u8,
}

/// Number of agents in `s` with status `st`.
pub open spec fn count_agents(s: Seq<AgentEntry>, st: AgentStatus) -> nat
    decreases s.len(),
{
    if s.len() == 0 {
        0
    } else {
        count_agents(s.drop_last(), st) + if s.last().status == st {
            1nat
        } else {
            0nat
        }
    }
}

#[derive(Debug, Clone)]
pub struct AgentsData {
    pub entries: Vec<AgentEntry>,
}

impl AgentsData {
    /// Returns `(done, running, failed)` counts.
    pub fn count_by_status(&self) -> (r: (usize, usize, usize))
        ensures
            r.0 == count_agents(self.entries@, AgentStatus::Done),
            r.1 == count_agents(self.entries@, AgentStatus::Running),
            r.2 == count_agents(self.entries@, AgentStatus::Failed),
    {
        let n = self.entries.len();
        let mut i: usize = 0;
        let mut done: usize = 0;
        let mut running: usize = 0;
        let mut failed: usize = 0;
        while i < n
            invariant
                n == self.entries@.len(),
                i <= n,
                done == count_agents(self.entries@.take(i as int), AgentStatus::Done),
                running == count_agents(self.entries@.take(i as int), AgentStatus::Running),
                failed == count_agents(self.entries@.take(i as int), AgentStatus::Failed),
                done <= i,
                running <= i,
                failed <= i,
            decreases n - i,
        {
            proof {
                assert(self.entries@.take(i + 1).drop_last() =~= self.entries@.take(i as int));
            }
            match self.entries[i].status {
                AgentStatus::Done => done = done + 1,
                AgentStatus::Running => running = running + 1,
                AgentStatus::Failed => failed = failed + 1,
            }
            i = i + 1;
        }
        proof {
            assert(self.entries@.take(n as int) =~= self.entries@);
        }
        (done, running, failed)
    }
}

/// Egress state and active connections.
#[derive(Debug, Clone)]
pub struct NetworkData {
    pub egress: bool,
    /// `(agent_name, host)` pairs for active connections.
    pub connections: Vec<(String, String)>,
}

#[derive(Debug, Clone, Copy, PartialEq, Eq, Structural)]
pub enum JobStatus {
    Running,
    Done,
    Failed,
}

#[derive(Debug, Clone)]
pub struct JobEntry {
    pub name: String,
    pub command: String,
    pub status: JobStatus,
    pub elapsed: Option<String>,
}

/// Number of running jobs in `s`.
pub open spec fn count_running_jobs(s: Seq<JobEntry>) -> nat
    decreases s.len(),
{
    if s.len() == 0 {
        0
    } else {
        count_running_jobs(s.drop_last()) + if s.last().status == JobStatus::Running {
            1nat
        } else {
            0nat
        }
    }
}

#[derive(Debug, Clone)]
pub struct JobsData {
    pub entries: Vec<JobEntry>,
}

impl JobsData {
    pub fn running_count(&self) -> (n: usize)
        ensures
            n == count_running_jobs(self.entries@),
    {
        let len = self.entries.len();
        let mut i: usize = 0;
        let mut count: usize = 0;
        while i < len
            invariant
                len == self.entries@.len(),
                i <= len,
                count == count_running_jobs(self.entries@.take(i as int)),
                count <= i,
            decreases len - i,
        {
            proof {
                assert(self.entries@.take(i + 1).drop_last() =~= self.entries@.take(i as int));
            }
            if self.entries[i].status == JobStatus::Running {
                count = count + 1;
            }
            i = i + 1;
        }
        proof {
            assert(self.entries@.take(len as int) =~= self.entries@);
        }
        count
    }
}

#[derive(Debug, Clone, Copy, PartialEq, Eq, Structural)]
pub enum McpServerStatus {
    Running,
    Stopped,
    Failed,
}

#[derive(Debug, Clone)]
pub struct McpServerEntry {
    pub name: String,
    /// "trusted" or "untrusted".
    pub trust: String,
    pub status: McpServerStatus,
}

/// Number of running servers in `s`.
pub open spec fn count_running_servers(s: Seq<McpServerEntry>) -> nat
    decreases s.len(),
{
    if s.len() == 0 {
        0
    } else {
        count_running_servers(s.drop_last()) + if s.last().status == McpServerStatus::Running {
            1nat
        } else {
            0nat
        }
    }
}

#[derive(Debug, Clone)]
pub struct McpData {
    pub servers: Vec<McpServerEntry>,
}

impl McpData {
    pub fn active_count(&self) -> (n: usize)
        ensures
            n == count_running_servers(self.servers@),
    {
        let len = self.servers.len();
        let mut i: usize = 0;
        let mut count: usize = 0;
        while i < len
            invariant
                len == self.servers@.len(),
                i <= len,
                count == count_running_servers(self.servers@.take(i as int)),
                count <= i,
            decreases len - i,
        {
            proof {
                assert(self.servers@.take(i + 1).drop_last() =~= self.servers@.take(i as int));
            }
            if self.servers[i].status == McpServerStatus::Running {
                count = count + 1;
            }
            i = i + 1;
        }
        proof {
            assert(self.servers@.take(len as int) =~= self.servers@);
        }
        count
    }
}

/// The first `max_chars` characters of `s`, or all of it when shorter.
pub open spec fn truncated(s: Seq<char>, max_chars: int) -> Seq<char> {
    if s.len() <= max_chars {
        s
    } else {
        s.take(max_chars)
    }
}

/// Truncate `s` to at most `max_chars` characters (by character count, not bytes).
pub fn truncate_str(s: &str, max_chars: usize) -> (r: String)
    ensures
        r@ == truncated(s@, max_chars as int),
{
    let chars = chars_of(s);
    if chars.len() <= max_chars {
        string_of(chars.as_slice())
    } else {
        let mut out: Vec<char> = Vec::new();
        let mut i: usize = 0;
        while i < max_chars
            invariant
                i <= max_chars < chars@.len(),
                out@ == chars@.take(i as int),
            decreases max_chars - i,
        {
            out.push(chars[i]);
            proof {
                assert(chars@.take(i + 1) =~= chars@.take(i as int).push(chars@[i as int]));
            }
            i = i + 1;
        }
        string_of(out.as_slice())
    }
}

// ---------------------------------------------------------------------------
// Defaults
// ---------------------------------------------------------------------------

impl Default for SkillData {
    fn default() -> (d: Self)
        ensures
            d.name is None,
            d.tools_allowed == 0,
            d.preferred_group is None,
    {
        SkillData { name: None, tools_allowed: 0, preferred_group: None }
    }
}

impl Default for FileDiff {
    fn default() -> (d: Self)
        ensures
            d.path@.len() == 0,
            d.additions == 0,
            d.deletions == 0,
    {
        FileDiff { path: String::new(), additions: 0, deletions: 0 }
    }
}

impl Default for WorkspaceData {
    fn default() -> (d: Self)
        ensures
            d.files@.len() == 0,
            d.checkpoint_age is None,
    {
        WorkspaceData { files: Vec::new(), checkpoint_age: None }
    }
}

impl Default for ToolsData {
    fn default() -> (d: Self)
        ensures
            d.entries@.len() == 0,
    {
        ToolsData { entries: Vec::new() }
    }
}

impl Default for AgentsData {
    fn default() -> (d: Self)
        ensures
            d.entries@.len() == 0,
    {
        AgentsData { entries: Vec::new() }
    }
}

impl Default for NetworkData {
    fn default() -> (d: Self)
        ensures
            !d.egress,
            d.connections@.len() == 0,
    {
        NetworkData { egress: false, connections: Vec::new() }
    }
}

impl Default for JobsData {
    fn default() -> (d: Self)
        ensures
            d.entries@.len() == 0,
    {
        JobsData { entries: Vec::new() }
    }
}

impl Default for McpData {
    fn default() -> (d: Self)
        ensures
            d.servers@.len() == 0,
    {
        McpData { servers: Vec::new() }
    }
}

// ---------------------------------------------------------------------------
// Sidebar state
// ---------------------------------------------------------------------------

/// The section ids in display order.
pub open spec fn section_order() -> Seq<SectionId> {
    seq![
        SectionId::Router,
        SectionId::Skill,
        SectionId::Context,
        SectionId::Workspace,
        SectionId::Tools,
        SectionId::Agents,
        SectionId::Network,
        SectionId::Jobs,
        SectionId::Mcp,
    ]
}

/// `j` is the first position in `ss` whose section is `id`.
pub open spec fn is_first_section(ss: Seq<SectionState>, id: SectionId, j: int) -> bool {
    &&& 0 <= j < ss.len()
    &&& ss[j].id == id
    &&& forall|k: int| 0 <= k < j ==> ss[k].id != id
}

/// No section in `ss` is `id`.
pub open spec fn no_section(ss: Seq<SectionState>, id: SectionId) -> bool {
    forall|k: int| 0 <= k < ss.len() ==> ss[k].id != id
}

/// `j` is the first position in `ps` whose plugin section has id `sid`.
pub open spec fn is_first_plugin(ps: Seq<PluginSidebarSection>, sid: Seq<char>, j: int) -> bool {
    &&& 0 <= j < ps.len()
    &&& ps[j].section_id@ == sid
    &&& forall|k: int| 0 <= k < j ==> ps[k].section_id@ != sid
}

/// No plugin section in `ps` has id `sid`.
pub open spec fn no_plugin(ps: Seq<PluginSidebarSection>, sid: Seq<char>) -> bool {
    forall|k: int| 0 <= k < ps.len() ==> ps[k].section_id@ != sid
}

/// The plugin sections of `ps` not registered by `name`, in order.
pub open spec fn others_of(ps: Seq<PluginSidebarSection>, name: Seq<char>) -> Seq<
    PluginSidebarSection,
> {
    ps.filter(not_from_plugin(name))
}

/// Whether a plugin section was not registered by `name`.
pub open spec fn not_from_plugin(name: Seq<char>) -> spec_fn(PluginSidebarSection) -> bool {
    |s: PluginSidebarSection| s.plugin_name@ != name
}

/// The data behind the sidebar: collapse state of the built-in sections,
/// the section contents, and plugin-contributed sections.
#[derive(Debug, Clone)]
pub struct SidebarData {
    pub sections: Vec<SectionState>,
    pub skill: SkillData,
    pub workspace: WorkspaceData,
    pub tools: ToolsData,
    pub agents: AgentsData,
    pub network: NetworkData,
    pub jobs: JobsData,
    pub mcp: McpData,
    pub plugin_sections: Vec<PluginSidebarSection>,
}

impl SidebarData {
    /// Every built-in section, in order, expanded; empty contents; no plugin sections.
    pub fn new() -> (d: Self)
        ensures
            d.sections@.len() == section_order().len(),
            forall|i: int|
                0 <= i < d.sections@.len() ==> d.sections@[i] == (SectionState {
                    id: section_order()[i],
                    collapsed: false,
                }),
            d.plugin_sections@.len() == 0,
            d.skill.name is None,
            d.skill.tools_allowed == 0,
            d.skill.preferred_group is None,
            d.workspace.files@.len() == 0,
            d.workspace.checkpoint_age is None,
            d.tools.entries@.len() == 0,
            d.agents.entries@.len() == 0,
            !d.network.egress,
            d.network.connections@.len() == 0,
            d.jobs.entries@.len() == 0,
            d.mcp.servers@.len() == 0,
    {
        let ids = SectionId::all();
        let mut sections: Vec<SectionState> = Vec::new();
        let mut i: usize = 0;
        while i < ids.len()
            invariant
                ids@ == section_order(),
                i <= ids@.len(),
                sections@.len() == i,
                forall|k: int|
                    0 <= k < i ==> sections@[k] == (SectionState {
                        id: section_order()[k],
                        collapsed: false,
                    }),
            decreases ids@.len() - i,
        {
            sections.push(SectionState { id: ids[i], collapsed: false });
            i = i + 1;
        }
        SidebarData {
            sections,
            skill: SkillData::default(),
            workspace: WorkspaceData::default(),
            tools: ToolsData::default(),
            agents: AgentsData::default(),
            network: NetworkData::default(),
            jobs: JobsData::default(),
            mcp: McpData::default(),
            plugin_sections: Vec::new(),
        }
    }

    /// Add `section`, or replace the first plugin section with the same `section_id`.
    pub fn register_plugin_section(&mut self, section: PluginSidebarSection)
        ensures
            forall|j: int|
                is_first_plugin(old(self).plugin_sections@, section.section_id@, j)
                    ==> final(self).plugin_sections@ == old(self).plugin_sections@.update(
                    j,
                    section,
                ),
            no_plugin(old(self).plugin_sections@, section.section_id@)
                ==> final(self).plugin_sections@ == old(self).plugin_sections@.push(section),
            final(self).sections == old(self).sections,
    {
        let n = self.plugin_sections.len();
        let mut i: usize = 0;
        while i < n
            invariant
                n == self.plugin_sections@.len(),
                i <= n,
                self.plugin_sections@ == old(self).plugin_sections@,
                self.sections == old(self).sections,
                forall|k: int|
                    0 <= k < i ==> #[trigger] self.plugin_sections@[k].section_id@
                        != section.section_id@,
            decreases n - i,
        {
            if str_eq(self.plugin_sections[i].section_id.as_str(), section.section_id.as_str()) {
                proof {
                    assert(is_first_plugin(old(self).plugin_sections@, section.section_id@, i as int));
                }
                self.plugin_sections.set(i, section);
                return;
            }
            i = i + 1;
        }
        self.plugin_sections.push(section);
    }

    /// Remove every plugin section registered by `plugin_name`.
    pub fn remove_plugin_sections(&mut self, plugin_name: &str)
        ensures
            final(self).plugin_sections@ == others_of(old(self).plugin_sections@, plugin_name@),
            final(self).sections == old(self).sections,
    {
        let ghost ps0 = self.plugin_sections@;
        let ghost pred = not_from_plugin(plugin_name@);
        let ghost mut k: int = 0;
        let mut i: usize = 0;
        while i < self.plugin_sections.len()
            invariant
                0 <= k <= ps0.len(),
                pred == not_from_plugin(plugin_name@),
                i == ps0.take(k).filter(pred).len(),
                self.plugin_sections@ == ps0.take(k).filter(pred) + ps0.subrange(k, ps0.len() as int),
                self.sections == old(self).sections,
            decreases ps0.len() - k,
        {
            proof {
                assert(self.plugin_sections@[i as int] == ps0[k]);
                assert(ps0.take(k + 1) =~= ps0.take(k).push(ps0[k]));
                ps0.take(k).lemma_filter_push(ps0[k], pred);
            }
            if str_eq(self.plugin_sections[i].plugin_name.as_str(), plugin_name) {
                let _gone = self.plugin_sections.remove(i);
                proof {
                    assert(self.plugin_sections@ =~= ps0.take(k + 1).filter(pred) + ps0.subrange(k + 1, ps0.len() as int));
                }
            } else {
                proof {
                    assert(self.plugin_sections@ =~= ps0.take(k + 1).filter(pred) + ps0.subrange(k + 1, ps0.len() as int));
                }
                i = i + 1;
            }
            proof {
                k = k + 1;
            }
        }
        proof {
            assert(k == ps0.len()) by {
                if k < ps0.len() {
                    assert(self.plugin_sections@.len() == i + (ps0.len() - k));
                }
            }
            assert(ps0.take(k) =~= ps0);
            assert(self.plugin_sections@ =~= ps0.filter(pred));
        }
    }

    /// Remove every plugin section.
    pub fn clear_plugin_sections(&mut self)
        ensures
            final(self).plugin_sections@.len() == 0,
            final(self).sections == old(self).sections,
    {
        self.plugin_sections.clear();
    }

    /// Toggle the first section with id `id`; nothing happens if there is none.
    pub fn toggle_section(&mut self, id: SectionId)
        ensures
            forall|j: int|
                is_first_section(old(self).sections@, id, j) ==> final(self).sections@
                    == old(self).sections@.update(
                    j,
                    SectionState { id, collapsed: !old(self).sections@[j].collapsed },
                ),
            no_section(old(self).sections@, id) ==> final(self).sections@
                == old(self).sections@,
            final(self).plugin_sections == old(self).plugin_sections,
    {
        match self.find_section(id) {
            Some(j) => {
                let mut s = self.sections[j];
                s.toggle();
                self.sections.set(j, s);
            },
            None => {},
        }
    }

    /// Whether the first section with id `id` is collapsed (false if there is none).
    pub fn is_collapsed(&self, id: SectionId) -> (b: bool)
        ensures
            forall|j: int|
                is_first_section(self.sections@, id, j) ==> b == self.sections@[j].collapsed,
            no_section(self.sections@, id) ==> !b,
    {
        match self.find_section(id) {
            Some(j) => self.sections[j].collapsed,
            None => false,
        }
    }

    /// Position of the first section with id `id`.
    fn find_section(&self, id: SectionId) -> (r: Option<usize>)
        ensures
            match r {
                Some(j) => is_first_section(self.sections@, id, j as int),
                None => no_section(self.sections@, id),
            },
            forall|j: int| #[trigger]
                is_first_section(self.sections@, id, j) ==> r == Some(j as usize),
    {
        let n = self.sections.len();
        let mut i: usize = 0;
        while i < n
            invariant
                n == self.sections@.len(),
                i <= n,
                forall|k: int| 0 <= k < i ==> self.sections@[k].id != id,
            decreases n - i,
        {
            if self.sections[i].id == id {
                return Some(i);
            }
            i = i + 1;
        }
        None
    }
}

/// No two plugin sections in `ps` share a `section_id`.
pub open spec fn distinct_plugin_ids(ps: Seq<PluginSidebarSection>) -> bool {
    forall|i: int, j: int|
        0 <= i < j < ps.len() ==> #[trigger] ps[i].section_id@ != #[trigger] ps[j].section_id@
}

/// Toggling a section twice leaves it as it was.
pub proof fn law_toggle_twice(ss: Seq<SectionState>, id: SectionId, j: int)
    requires
        is_first_section(ss, id, j),
    ensures
        ({
            let once = ss.update(j, SectionState { id, collapsed: !ss[j].collapsed });
            &&& is_first_section(once, id, j)
            &&& once.update(j, SectionState { id, collapsed: !once[j].collapsed }) == ss
        }),
{
    let once = ss.update(j, SectionState { id, collapsed: !ss[j].collapsed });
    assert(once.update(j, SectionState { id, collapsed: !once[j].collapsed }) =~= ss);
}

/// Registering plugin sections never gives two sections the same id.
pub proof fn law_register_keeps_ids_distinct(
    ps: Seq<PluginSidebarSection>,
    section: PluginSidebarSection,
)
    requires
        distinct_plugin_ids(ps),
    ensures
        forall|j: int|
            is_first_plugin(ps, section.section_id@, j) ==> distinct_plugin_ids(
                ps.update(j, section),
            ),
        no_plugin(ps, section.section_id@) ==> distinct_plugin_ids(ps.push(section)),
{
    assert forall|j: int| is_first_plugin(ps, section.section_id@, j) implies distinct_plugin_ids(
        ps.update(j, section),
    ) by {
        let q = ps.update(j, section);
        assert forall|a: int, b: int| 0 <= a < b < q.len() implies #[trigger] q[a].section_id@
            != #[trigger] q[b].section_id@ by {
            if a == j {
                assert(ps[b].section_id@ != ps[j].section_id@);
            } else if b == j {
                assert(ps[a].section_id@ != ps[j].section_id@);
            } else {
                assert(ps[a].section_id@ != ps[b].section_id@);
            }
        }
    }
    if no_plugin(ps, section.section_id@) {
        let q = ps.push(section);
        assert forall|a: int, b: int| 0 <= a < b < q.len() implies #[trigger] q[a].section_id@
            != #[trigger] q[b].section_id@ by {
            if b == ps.len() {
                assert(q[a] == ps[a]);
            } else {
                assert(ps[a].section_id@ != ps[b].section_id@);
            }
        }
    }
}

/// After removing a plugin's sections none of them is left, and every
/// other section stays.
pub proof fn law_remove_plugin_sections(ps: Seq<PluginSidebarSection>, name: Seq<char>)
    ensures
        forall|i: int|
            0 <= i < others_of(ps, name).len() ==> (#[trigger] others_of(ps, name)[i]).plugin_name@
                != name,
        forall|i: int|
            0 <= i < ps.len() && ps[i].plugin_name@ != name ==> others_of(ps, name).contains(
                ps[i],
            ),
{
    let pred = not_from_plugin(name);
    assert forall|i: int| 0 <= i < others_of(ps, name).len() implies (#[trigger] others_of(ps, name)[i]).plugin_name@
        != name by {
        ps.lemma_filter_pred(pred, i);
    }
    assert forall|i: int| 0 <= i < ps.len() && ps[i].plugin_name@ != name implies others_of(ps, name).contains(
        ps[i],
    ) by {
        ps.lemma_filter_contains(pred, i);
    }
}

impl Default for SidebarData {
    fn default() -> (d: Self)
        ensures
            d.sections@.len() == section_order().len(),
            forall|i: int|
                0 <= i < d.sections@.len() ==> d.sections@[i] == (SectionState {
                    id: section_order()[i],
                    collapsed: false,
                }),
            d.plugin_sections@.len() == 0,
    {
        Self::new()
    }
}

/// Number of tool calls in `s` awaiting approval.
pub open spec fn count_pending(s: Seq<ToolEntry>) -> nat
    decreases s.len(),
{
    if s.len() == 0 {
        0
    } else {
        count_pending(s.drop_last()) + if s.last().status == ToolCallStatus::PendingApproval {
            1nat
        } else {
            0nat
        }
    }
}

impl ToolsData {
    /// Number of calls awaiting approval.
    pub fn pending_count(&self) -> (n: usize)
        ensures
            n == count_pending(self.entries@),
    {
        let len = self.entries.len();
        let mut i: usize = 0;
        let mut count: usize = 0;
        while i < len
            invariant
                len == self.entries@.len(),
                i <= len,
                count == count_pending(self.entries@.take(i as int)),
                count <= i,
            decreases len - i,
        {
            proof {
                assert(self.entries@.take(i + 1).drop_last() =~= self.entries@.take(i as int));
            }
            if self.entries[i].status == ToolCallStatus::PendingApproval {
                count = count + 1;
            }
            i = i + 1;
        }
        proof {
            assert(self.entries@.take(len as int) =~= self.entries@);
        }
        count
    }
}

/// The one-line text a collapsed section shows, or `None` for the router and
/// context sections, whose data `SidebarData` does not carry.
pub open spec fn summary_text(id: SectionId, d: SidebarData) -> Option<Seq<char>> {
    match id {
        SectionId::Router => None,
        SectionId::Context => None,
        SectionId::Skill => Some(
            match d.skill.name {
                Some(n) => n@,
                None => "none"@,
            },
        ),
        SectionId::Workspace => Some(
            decimal(d.workspace.files@.len()) + " files +"@ + decimal(
                sum_additions(d.workspace.files@),
            ) + " -"@ + decimal(sum_deletions(d.workspace.files@)),
        ),
        SectionId::Tools => Some(
            if count_pending(d.tools.entries@) > 0 {
                decimal(d.tools.entries@.len()) + " calls, "@ + decimal(
                    count_pending(d.tools.entries@),
                ) + " pending"@
            } else {
                decimal(d.tools.entries@.len()) + " calls"@
            },
        ),
        SectionId::Agents => Some(
            decimal(count_agents(d.agents.entries@, AgentStatus::Running)) + " running, "@
                + decimal(count_agents(d.agents.entries@, AgentStatus::Done)) + " done, "@
                + decimal(count_agents(d.agents.entries@, AgentStatus::Failed)) + " failed"@,
        ),
        SectionId::Network => Some(
            decimal(d.network.connections@.len()) + if d.network.egress {
                " conn, egress on"@
            } else {
                " conn"@
            },
        ),
        SectionId::Jobs => Some(decimal(count_running_jobs(d.jobs.entries@)) + " running"@),
        SectionId::Mcp => Some(
            decimal(count_running_servers(d.mcp.servers@)) + "/"@ + decimal(
                d.mcp.servers@.len(),
            ) + " active"@,
        ),
    }
}

/// Append the decimal digits of a count.
fn push_count(out: &mut Vec<char>, n: usize)
    ensures
        final(out)@ == old(out)@ + decimal(n as nat),
{
    push_decimal(out, n as u64);
}

/// Summary line shown for a collapsed section (see `summary_text`).
pub fn section_summary(id: SectionId, data: &SidebarData) -> (r: Option<String>)
    requires
        id == SectionId::Workspace ==> sum_additions(data.workspace.files@) <= u32::MAX
            && sum_deletions(data.workspace.files@) <= u32::MAX,
    ensures
        match summary_text(id, *data) {
            Some(t) => r is Some && r->0@ == t,
            None => r is None,
        },
{
    let mut out: Vec<char> = Vec::new();
    match id {
        SectionId::Router => {
            return None;
        },
        SectionId::Context => {
            return None;
        },
        SectionId::Skill => match &data.skill.name {
            Some(n) => push_str_chars(&mut out, n.as_str()),
            None => push_str_chars(&mut out, "none"),
        },
        SectionId::Workspace => {
            let add = data.workspace.total_additions();
            let del = data.workspace.total_deletions();
            push_count(&mut out, data.workspace.files.len());
            push_str_chars(&mut out, " files +");
            push_decimal(&mut out, add as u64);
            push_str_chars(&mut out, " -");
            push_decimal(&mut out, del as u64);
        },
        SectionId::Tools => {
            let pending = data.tools.pending_count();
            push_count(&mut out, data.tools.entries.len());
            if pending > 0 {
                push_str_chars(&mut out, " calls, ");
                push_count(&mut out, pending);
                push_str_chars(&mut out, " pending");
            } else {
                push_str_chars(&mut out, " calls");
            }
        },
        SectionId::Agents => {
            let (done, running, failed) = data.agents.count_by_status();
            push_count(&mut out, running);
            push_str_chars(&mut out, " running, ");
            push_count(&mut out, done);
            push_str_chars(&mut out, " done, ");
            push_count(&mut out, failed);
            push_str_chars(&mut out, " failed");
        },
        SectionId::Network => {
            push_count(&mut out, data.network.connections.len());
            if data.network.egress {
                push_str_chars(&mut out, " conn, egress on");
            } else {
                push_str_chars(&mut out, " conn");
            }
        },
        SectionId::Jobs => {
            let running = data.jobs.running_count();
            push_count(&mut out, running);
            push_str_chars(&mut out, " running");
        },
        SectionId::Mcp => {
            let active = data.mcp.active_count();
            push_count(&mut out, active);
            push_str_chars(&mut out, "/");
            push_count(&mut out, data.mcp.servers.len());
            push_str_chars(&mut out, " active");
        },
    }
    let s = string_of(out.as_slice());
    proof {
        assert(summary_text(id, *data) is Some);
        assert(s@ =~= summary_text(id, *data)->0);
    }
    Some(s)
}

/// Which theme style a badge is drawn in.
#[derive(Debug, Clone, Copy, PartialEq, Eq, Structural)]
pub enum BadgeStyle {
    Plain,
    Warning,
    Accent,
    Safe,
}

/// Badge shown beside a section's icon in the icon strip: a warning sign
/// while tool calls await approval, a spinner while agents run, and the
/// number of running jobs or active servers; empty otherwise.
pub open spec fn badge_of(id: SectionId, d: SidebarData) -> (Seq<char>, BadgeStyle) {
    let none = (Seq::<char>::empty(), BadgeStyle::Plain);
    match id {
        SectionId::Tools => if count_pending(d.tools.entries@) > 0 {
            (seq!['\u{26a0}'], BadgeStyle::Warning)
        } else {
            none
        },
        SectionId::Agents => if count_agents(d.agents.entries@, AgentStatus::Running) > 0 {
            (seq!['\u{27f3}'], BadgeStyle::Accent)
        } else {
            none
        },
        SectionId::Jobs => if count_running_jobs(d.jobs.entries@) > 0 {
            (decimal(count_running_jobs(d.jobs.entries@)), BadgeStyle::Accent)
        } else {
            none
        },
        SectionId::Mcp => if count_running_servers(d.mcp.servers@) > 0 {
            (decimal(count_running_servers(d.mcp.servers@)), BadgeStyle::Safe)
        } else {
            none
        },
        _ => none,
    }
}

/// The icon-strip badge of section `id` (see `badge_of`).
pub fn icon_strip_badge(id: SectionId, data: &SidebarData) -> (r: (String, BadgeStyle))
    ensures
        r.0@ == badge_of(id, *data).0,
        r.1 == badge_of(id, *data).1,
{
    let mut out: Vec<char> = Vec::new();
    let mut style = BadgeStyle::Plain;
    match id {
        SectionId::Tools => {
            if data.tools.pending_count() > 0 {
                out.push('\u{26a0}');
                style = BadgeStyle::Warning;
            }
        },
        SectionId::Agents => {
            let (_, running, _) = data.agents.count_by_status();
            if running > 0 {
                out.push('\u{27f3}');
                style = BadgeStyle::Accent;
            }
        },
        SectionId::Jobs => {
            let running = data.jobs.running_count();
            if running > 0 {
                push_count(&mut out, running);
                style = BadgeStyle::Accent;
            }
        },
        SectionId::Mcp => {
            let active = data.mcp.active_count();
            if active > 0 {
                push_count(&mut out, active);
                style = BadgeStyle::Safe;
            }
        },
        _ => {},
    }
    let s = string_of(out.as_slice());
    proof {
        assert(s@ =~= badge_of(id, *data).0);
    }
    (s, style)
}

} // verus!
