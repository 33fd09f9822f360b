//! The slash-command registry: built-in and plugin commands, exact lookup,
//! case-insensitive search, suggestions for mistyped names, and removal of a
//! plugin's commands.

use vstd::prelude::*;

use crate::keybinds::Action;
use crate::text::{
    chars_of, contains_chars, contains_seq, lowercase, shared_prefix, shared_prefix_len,
    str_eq, str_to_lowercase, trim_leading, trim_leading_chars,
};

verus! {

/// Palette section a command is listed under.
#[derive(Debug, Clone, Copy, PartialEq, Eq, Structural)]
pub enum CommandCategory {
    Recent,
    Session,
    Tools,
    Plugins,
}

impl CommandCategory {
    pub fn label(self) -> (r: &'static str)
        ensures
            r@ == match self {
                CommandCategory::Recent => "recent"@,
                CommandCategory::Session => "session"@,
                CommandCategory::Tools => "tools"@,
                CommandCategory::Plugins => "plugins"@,
            },
    {
        match self {
            CommandCategory::Recent => "recent",
            CommandCategory::Session => "session",
            CommandCategory::Tools => "tools",
            CommandCategory::Plugins => "plugins",
        }
    }
}

/// Where a command comes from; plugin commands carry the plugin's name.
#[derive(Debug, Clone, PartialEq, Eq)]
pub enum CommandSource {
    Builtin,
    User,
    Project,
    Plugin(String),
}

impl CommandSource {
    /// The badge text of a source.
    pub open spec fn badge_text(&self) -> Seq<char> {
        match self {
            CommandSource::Builtin => "[builtin]"@,
            CommandSource::User => "[user]"@,
            CommandSource::Project => "[project]"@,
            CommandSource::Plugin(_) => "[plugin]"@,
        }
    }

    pub fn badge(&self) -> (r: &str)
        ensures
            r@ == self.badge_text(),
    {
        match self {
            CommandSource::Builtin => "[builtin]",
            CommandSource::User => "[user]",
            CommandSource::Project => "[project]",
            CommandSource::Plugin(_) => "[plugin]",
        }
    }
}

/// One registered command.
#[derive(Debug, Clone)]
pub struct CommandDef {
    pub name: String,
    pub description: String,
    pub category: CommandCategory,
    pub source: CommandSource,
    /// Optional argument hint shown in the palette, e.g. `"<name>"`.
    pub args_hint: Option<String>,
    /// Action to dispatch when this command is selected, if any.
    pub action: Option<Action>,
}

/// `c` is a built-in command with these fields and no argument hint.
pub open spec fn builtin_def(
    c: CommandDef,
    name: Seq<char>,
    description: Seq<char>,
    category: CommandCategory,
    action: Option<Action>,
) -> bool {
    &&& c.name@ == name
    &&& c.description@ == description
    &&& c.category == category
    &&& c.source == CommandSource::Builtin
    &&& c.args_hint is None
    &&& c.action == action
}

/// The ten built-in commands, in order.
pub open spec fn builtin_table(s: Seq<CommandDef>) -> bool {
    &&& s.len() == 10
    &&& builtin_def(s[0], "/connect"@, "Connect provider or auth method"@, CommandCategory::Tools, Some(Action::OpenConnect))
    &&& builtin_def(s[1], "/skills"@, "Browse and activate skills"@, CommandCategory::Tools, None)
    &&& builtin_def(s[2], "/models"@, "Switch model or model group"@, CommandCategory::Tools, None)
    &&& builtin_def(s[3], "/tools"@, "View available tools"@, CommandCategory::Tools, None)
    &&& builtin_def(s[4], "/checkpoint"@, "Create workspace checkpoint"@, CommandCategory::Tools, None)
    &&& builtin_def(s[5], "/rollback"@, "Restore prior checkpoint"@, CommandCategory::Tools, None)
    &&& builtin_def(s[6], "/jobs"@, "View background jobs"@, CommandCategory::Tools, None)
    &&& builtin_def(s[7], "/session list"@, "List all sessions"@, CommandCategory::Session, None)
    &&& builtin_def(s[8], "/session fork"@, "Fork current session"@, CommandCategory::Session, None)
    &&& s[9].name@ == "/session rename"@
    &&& s[9].description@ == "Rename current session"@
    &&& s[9].category == CommandCategory::Session
    &&& s[9].source == CommandSource::Builtin
    &&& s[9].args_hint matches Some(h) && h@ == "<name>"@
    &&& s[9].action is None
}

/// Case-insensitive substring match on name or description.
pub open spec fn matches_query(c: CommandDef, query: Seq<char>) -> bool {
    contains_seq(lowercase(c.name@), lowercase(query)) || contains_seq(
        lowercase(c.description@),
        lowercase(query),
    )
}

/// What `search` returns: everything for an empty query, else the matches, in order.
pub open spec fn search_result(s: Seq<CommandDef>, query: Seq<char>) -> Seq<CommandDef> {
    if query.len() == 0 {
        s
    } else {
        s.filter(|c: CommandDef| matches_query(c, query))
    }
}

/// `name` suggests `c`: the lowercased names contain one another, or the
/// lowercased name without its leading slashes shares a prefix of at least
/// three characters with the lowercased `name`.
pub open spec fn suggests(c: CommandDef, name: Seq<char>) -> bool {
    let lower = lowercase(c.name@);
    let needle = lowercase(name);
    contains_seq(lower, needle) || contains_seq(needle, lower) || shared_prefix(
        trim_leading(lower, '/'),
        needle,
    ) >= 3
}

/// `i` is the first position in `s` of a command named `name`.
pub open spec fn is_first_named(s: Seq<CommandDef>, name: Seq<char>, i: int) -> bool {
    &&& 0 <= i < s.len()
    &&& s[i].name@ == name
    &&& forall|j: int| 0 <= j < i ==> s[j].name@ != name
}

/// No command in `s` is named `name`.
pub open spec fn no_named(s: Seq<CommandDef>, name: Seq<char>) -> bool {
    forall|i: int| 0 <= i < s.len() ==> s[i].name@ != name
}

/// Whether `name` suggests a command.
pub open spec fn suggest_pred(name: Seq<char>) -> spec_fn(CommandDef) -> bool {
    |c: CommandDef| suggests(c, name)
}

/// The commands of `s` that `name` suggests, in order.
pub open spec fn suggested(s: Seq<CommandDef>, name: Seq<char>) -> Seq<CommandDef> {
    s.filter(suggest_pred(name))
}

/// `c` was registered by the plugin called `name`.
pub open spec fn from_plugin(c: CommandDef, name: Seq<char>) -> bool {
    c.source matches CommandSource::Plugin(n) && n@ == name
}

/// Whether a command was not registered by the plugin `name`.
pub open spec fn not_from_plugin(name: Seq<char>) -> spec_fn(CommandDef) -> bool {
    |c: CommandDef| !from_plugin(c, name)
}

/// The commands of `s` not registered by the plugin `name`, in order.
pub open spec fn without_plugin(s: Seq<CommandDef>, name: Seq<char>) -> Seq<CommandDef> {
    s.filter(not_from_plugin(name))
}

/// The references in `r` point to the commands of `f`, in order.
pub open spec fn refs_match(r: Seq<&CommandDef>, f: Seq<CommandDef>) -> bool {
    r.len() == f.len() && forall|i: int| 0 <= i < r.len() ==> *r[i] == f[i]
}

proof fn lemma_filter_step(s: Seq<CommandDef>, i: int, pred: spec_fn(CommandDef) -> bool)
    requires
        0 <= i < s.len(),
    ensures
        s.take(i + 1).filter(pred) == if pred(s[i]) {
            s.take(i).filter(pred).push(s[i])
        } else {
            s.take(i).filter(pred)
        },
{
    reveal(Seq::filter);
    assert(s.take(i + 1).drop_last() =~= s.take(i));
    assert(s.take(i + 1).last() == s[i]);
}

/// The command list.
#[derive(Debug, Clone)]
pub struct CommandRegistry {
    commands: Vec<CommandDef>,
}

impl View for CommandRegistry {
    type V = Seq<CommandDef>;

    closed spec fn view(&self) -> Seq<CommandDef> {
        self.commands@
    }
}

impl CommandRegistry {
    pub fn new() -> (r: Self)
        ensures
            r@ == Seq::<CommandDef>::empty(),
    {
        CommandRegistry { commands: Vec::new() }
    }

    fn push_builtin(
        &mut self,
        name: &str,
        description: &str,
        category: CommandCategory,
        action: Option<Action>,
    )
        ensures
            final(self)@.len() == old(self)@.len() + 1,
            forall|i: int| 0 <= i < old(self)@.len() ==> final(self)@[i] == old(self)@[i],
            builtin_def(final(self)@[old(self)@.len() as int], name@, description@, category, action),
    {
        self.commands.push(
            CommandDef {
                name: name.to_owned(),
                description: description.to_owned(),
                category,
                source: CommandSource::Builtin,
                args_hint: None,
                action,
            },
        );
    }

    /// The registry with the built-in commands.
    pub fn with_builtins() -> (r: Self)
        ensures
            builtin_table(r@),
    {
        let mut reg = Self::new();
        reg.push_builtin("/connect", "Connect provider or auth method", CommandCategory::Tools, Some(Action::OpenConnect));
        reg.push_builtin("/skills", "Browse and activate skills", CommandCategory::Tools, None);
        reg.push_builtin("/models", "Switch model or model group", CommandCategory::Tools, None);
        reg.push_builtin("/tools", "View available tools", CommandCategory::Tools, None);
        reg.push_builtin("/checkpoint", "Create workspace checkpoint", CommandCategory::Tools, None);
        reg.push_builtin("/rollback", "Restore prior checkpoint", CommandCategory::Tools, None);
        reg.push_builtin("/jobs", "View background jobs", CommandCategory::Tools, None);
        reg.push_builtin("/session list", "List all sessions", CommandCategory::Session, None);
        reg.push_builtin("/session fork", "Fork current session", CommandCategory::Session, None);
        reg.commands.push(
            CommandDef {
                name: "/session rename".to_owned(),
                description: "Rename current session".to_owned(),
                category: CommandCategory::Session,
                source: CommandSource::Builtin,
                args_hint: Some("<name>".to_owned()),
                action: None,
            },
        );
        reg
    }

    /// Add a command at the end.
    pub fn register(&mut self, cmd: CommandDef)
        ensures
            final(self)@ == old(self)@.push(cmd),
    {
        self.commands.push(cmd);
    }

    /// The first command whose name is exactly `name` (case-sensitive).
    pub fn resolve(&self, name: &str) -> (r: Option<&CommandDef>)
        ensures
            r matches Some(c) ==> exists|i: int| is_first_named(self@, name@, i) && *c == self@[i],
            r is None ==> no_named(self@, name@),
    {
        let n = self.commands.len();
        let mut i: usize = 0;
        while i < n
            invariant
                n == self@.len(),
                i <= n,
                forall|j: int| 0 <= j < i ==> self@[j].name@ != name@,
            decreases n - i,
        {
            if str_eq(self.commands[i].name.as_str(), name) {
                return Some(&self.commands[i]);
            }
            i = i + 1;
        }
        None
    }

    /// Commands whose name or description contains `query`, ignoring case;
    /// all commands for an empty query.
    pub fn search(&self, query: &str) -> (r: Vec<&CommandDef>)
        ensures
            refs_match(r@, search_result(self@, query@)),
    {
        let n = self.commands.len();
        let mut r: Vec<&CommandDef> = Vec::new();
        let q = chars_of(query);
        if q.len() == 0 {
            let mut i: usize = 0;
            while i < n
                invariant
                    n == self@.len(),
                    i <= n,
                    refs_match(r@, self@.take(i as int)),
                decreases n - i,
            {
                r.push(&self.commands[i]);
                i = i + 1;
            }
            proof {
                assert(self@.take(n as int) =~= self@);
            }
            return r;
        }
        let needle = chars_of(str_to_lowercase(query).as_str());
        let ghost pred = |c: CommandDef| matches_query(c, query@);
        let mut i: usize = 0;
        proof {
            reveal(Seq::filter);
            assert(self@.take(0).filter(pred) =~= Seq::<CommandDef>::empty());
        }
        while i < n
            invariant
                n == self@.len(),
                i <= n,
                needle@ == lowercase(query@),
                pred == (|c: CommandDef| matches_query(c, query@)),
                refs_match(r@, self@.take(i as int).filter(pred)),
            decreases n - i,
        {
            let c = &self.commands[i];
            let name_l = chars_of(str_to_lowercase(c.name.as_str()).as_str());
            let desc_l = chars_of(str_to_lowercase(c.description.as_str()).as_str());
            let hit = contains_chars(&name_l, &needle) || contains_chars(&desc_l, &needle);
            proof {
                lemma_filter_step(self@, i as int, pred);
            }
            if hit {
                r.push(c);
            }
            i = i + 1;
        }
        proof {
            assert(self@.take(n as int) =~= self@);
        }
        r
    }

    /// All commands, in registration order.
    pub fn list(&self) -> (r: &[CommandDef])
        ensures
            r@ == self@,
    {
        self.commands.as_slice()
    }

    /// Remove every command registered by the plugin `source_name`.
    pub fn remove_by_source_name(&mut self, source_name: &str)
        ensures
            final(self)@ == without_plugin(old(self)@, source_name@),
    {
        let ghost pred = not_from_plugin(source_name@);
        let ghost s = self@;
        let ghost mut j: int = 0;
        let mut i: usize = 0;
        proof {
            reveal(Seq::filter);
            assert(s.take(0).filter(pred) =~= Seq::<CommandDef>::empty());
            assert(s.skip(0) =~= s);
            assert(self@ =~= s.take(0).filter(pred) + s.skip(0));
        }
        while i < self.commands.len()
            invariant
                0 <= j <= s.len(),
                pred == not_from_plugin(source_name@),
                self@ == s.take(j).filter(pred) + s.skip(j),
                i == s.take(j).filter(pred).len(),
            decreases self@.len() - i,
        {
            let ghost before = self@;
            assert(before[i as int] == s[j]);
            let drop = match &self.commands[i].source {
                CommandSource::Plugin(p) => str_eq(p.as_str(), source_name),
                _ => false,
            };
            proof {
                lemma_filter_step(s, j, pred);
            }
            if drop {
                self.commands.remove(i);
                proof {
                    assert(self@ =~= s.take(j + 1).filter(pred) + s.skip(j + 1));
                }
            } else {
                proof {
                    assert(self@ =~= s.take(j + 1).filter(pred) + s.skip(j + 1));
                }
                i = i + 1;
            }
            proof {
                j = j + 1;
            }
        }
        proof {
            assert(s.skip(j).len() == 0);
            assert(j == s.len());
            assert(s.take(j) =~= s);
            assert(self@ =~= s.filter(pred));
        }
    }

    /// Commands that a mistyped `name` may have meant (see `suggests`), in order.
    pub fn suggest(&self, name: &str) -> (r: Vec<&CommandDef>)
        ensures
            refs_match(r@, suggested(self@, name@)),
    {
        let n = self.commands.len();
        let mut r: Vec<&CommandDef> = Vec::new();
        let needle = chars_of(str_to_lowercase(name).as_str());
        let ghost pred = suggest_pred(name@);
        let mut i: usize = 0;
        proof {
            reveal(Seq::filter);
            assert(self@.take(0).filter(pred) =~= Seq::<CommandDef>::empty());
        }
        while i < n
            invariant
                n == self@.len(),
                i <= n,
                needle@ == lowercase(name@),
                pred == suggest_pred(name@),
                refs_match(r@, self@.take(i as int).filter(pred)),
            decreases n - i,
        {
            let c = &self.commands[i];
            let lower = chars_of(str_to_lowercase(c.name.as_str()).as_str());
            let bare = trim_leading_chars(&lower, '/');
            let hit = contains_chars(&lower, &needle) || contains_chars(&needle, &lower)
                || shared_prefix_len(&bare, &needle) >= 3;
            proof {
                lemma_filter_step(self@, i as int, pred);
            }
            if hit {
                r.push(c);
            }
            i = i + 1;
        }
        proof {
            assert(self@.take(n as int) =~= self@);
        }
        r
    }
}

/// A command registered under a new name is what resolving that name finds.
pub proof fn law_register_then_resolve(s: Seq<CommandDef>, cmd: CommandDef)
    requires
        no_named(s, cmd.name@),
    ensures
        is_first_named(s.push(cmd), cmd.name@, s.len() as int),
        forall|i: int| is_first_named(s.push(cmd), cmd.name@, i) ==> i == s.len(),
{
    assert forall|i: int| is_first_named(s.push(cmd), cmd.name@, i) implies i == s.len() by {
        if i < s.len() {
            assert(s.push(cmd)[i] == s[i]);
        }
    }
}

/// Removing a plugin's commands leaves none of them, keeps every other
/// command (built-ins included) in order.
pub proof fn law_remove_by_source(s: Seq<CommandDef>, plugin: Seq<char>)
    ensures
        ({
            let r = without_plugin(s, plugin);
            &&& forall|i: int| 0 <= i < r.len() ==> !from_plugin(#[trigger] r[i], plugin)
            &&& forall|i: int| 0 <= i < s.len() && !from_plugin(s[i], plugin) ==> r.contains(s[i])
            &&& forall|i: int|
                0 <= i < s.len() && s[i].source == CommandSource::Builtin ==> r.contains(s[i])
        }),
{
    let pred = not_from_plugin(plugin);
    let r = without_plugin(s, plugin);
    assert forall|i: int| 0 <= i < r.len() implies !from_plugin(#[trigger] r[i], plugin) by {
        s.lemma_filter_pred(pred, i);
    }
    assert forall|i: int| 0 <= i < s.len() && !from_plugin(s[i], plugin) implies r.contains(s[i]) by {
        s.lemma_filter_contains(pred, i);
    }
}

impl Default for CommandRegistry {
    fn default() -> (r: Self)
        ensures
            r@ == Seq::<CommandDef>::empty(),
    {
        Self::new()
    }
}

} // verus!
