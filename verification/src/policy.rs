//! Which tools may run, by configuration.
use crate::text::{same, texts};
use crate::types::ToolsConfig;
use crate::views::opt_view;
use vstd::prelude::*;

verus! {

/// The tools that may run.
pub struct Policy {
    allowed: Vec<String>,
}

/// Whether a configuration lets tools write.
pub open spec fn may_write(config: ToolsConfig) -> bool {
    config.permission@ != "read-only"@
}

/// Whether a tool is one that only reads and is switched on.
pub open spec fn reading_tool(config: ToolsConfig, name: Seq<char>) -> bool {
    ||| config.file_read && name == "file_read"@
    ||| config.file_search && name == "file_search"@
    ||| config.memory && (name == "memory_read"@ || name == "memory_recall"@)
}

/// Whether a tool is one that can write and is switched on.
pub open spec fn writing_tool(config: ToolsConfig, name: Seq<char>) -> bool {
    ||| config.shell && name == "shell"@
    ||| config.file_write && name == "file_write"@
    ||| config.ssh_exec && name == "ssh_exec"@
    ||| config.memory && name == "memory_write"@
    ||| config.todo && name == "todo_write"@
}

/// Whether a configuration allows a tool. `subagent` and `workflow` always are.
pub open spec fn enabled(config: ToolsConfig, name: Seq<char>) -> bool {
    ||| reading_tool(config, name)
    ||| may_write(config) && writing_tool(config, name)
    ||| name == "subagent"@
    ||| name == "workflow"@
}

/// What is said of a tool that may not run.
pub open spec fn not_enabled(name: Seq<char>) -> Seq<char> {
    "tool `"@ + name + "` is not enabled in configuration"@
}

impl Policy {
    /// The names of the tools that may run.
    pub closed spec fn names(self) -> Seq<Seq<char>> {
        texts(self.allowed@)
    }

    /// Whether a tool may run.
    pub open spec fn allows(self, name: Seq<char>) -> bool {
        self.names().contains(name)
    }

    /// Adds a tool where `on` is set.
    fn enlist(&mut self, on: bool, name: &str)
        ensures
            final(self).names() == if on {
                old(self).names().push(name@)
            } else {
                old(self).names()
            },
    {
        if on {
            self.allowed.push(name.to_owned());
            assert(texts(self.allowed@) =~= texts(old(self).allowed@).push(name@));
        }
    }

    /// The policy of a configuration. With the permission `read-only`, tools that can write are not
    /// allowed, whatever is switched on.
    pub fn from_config(config: &ToolsConfig) -> (r: Policy)
        ensures
            forall|name: Seq<char>| r.allows(name) <==> enabled(*config, name),
    {
        let mut p = Policy { allowed: Vec::new() };
        let write = !same(config.permission.as_str(), "read-only");
        assert(p.names() =~= Seq::empty());
        p.enlist(config.file_read, "file_read");
        p.enlist(config.file_search, "file_search");
        p.enlist(config.memory, "memory_read");
        p.enlist(config.memory, "memory_recall");
        let ghost n0 = p.names();
        assert forall|name: Seq<char>| n0.contains(name) <==> reading_tool(*config, name) by {
            lemma_read_names(*config, n0, name);
        }
        p.enlist(write && config.shell, "shell");
        let ghost n1 = p.names();
        p.enlist(write && config.file_write, "file_write");
        let ghost n2 = p.names();
        p.enlist(write && config.ssh_exec, "ssh_exec");
        let ghost n3 = p.names();
        p.enlist(write && config.memory, "memory_write");
        let ghost n4 = p.names();
        p.enlist(write && config.todo, "todo_write");
        let ghost n5 = p.names();
        p.enlist(true, "subagent");
        let ghost n6 = p.names();
        p.enlist(true, "workflow");
        assert forall|name: Seq<char>| p.allows(name) <==> enabled(*config, name) by {
            lemma_contains_push(n0, "shell"@, name);
            lemma_contains_push(n1, "file_write"@, name);
            lemma_contains_push(n2, "ssh_exec"@, name);
            lemma_contains_push(n3, "memory_write"@, name);
            lemma_contains_push(n4, "todo_write"@, name);
            lemma_contains_push(n5, "subagent"@, name);
            lemma_contains_push(n6, "workflow"@, name);
        }
        p
    }

    /// Why a tool may not run; nothing where it may.
    pub fn check_tool(&self, name: &str) -> (r: Option<String>)
        ensures
            opt_view(r) == if self.allows(name@) {
                None
            } else {
                Some(not_enabled(name@))
            },
    {
        let mut i: usize = 0;
        while i < self.allowed.len()
            invariant
                i <= self.allowed@.len(),
                forall|k: int| 0 <= k < i ==> self.names()[k] != name@,
            decreases self.allowed@.len() - i,
        {
            if same(self.allowed[i].as_str(), name) {
                assert(self.names()[i as int] == name@);
                return None;
            }
            i += 1;
        }
        let mut reason = "tool `".to_owned();
        reason.push_str(name);
        reason.push_str("` is not enabled in configuration");
        Some(reason)
    }
}

proof fn lemma_contains_push(s: Seq<Seq<char>>, x: Seq<char>, name: Seq<char>)
    ensures
        s.push(x).contains(name) <==> s.contains(name) || name == x,
{
    let t = s.push(x);
    if s.contains(name) {
        let i = choose|i: int| 0 <= i < s.len() && s[i] == name;
        assert(t[i] == name);
    }
    if name == x {
        assert(t[s.len() as int] == name);
    }
}

proof fn lemma_read_names(config: ToolsConfig, n0: Seq<Seq<char>>, name: Seq<char>)
    requires
        n0 == ({
            let a = if config.file_read {
                Seq::<Seq<char>>::empty().push("file_read"@)
            } else {
                Seq::<Seq<char>>::empty()
            };
            let b = if config.file_search {
                a.push("file_search"@)
            } else {
                a
            };
            let c = if config.memory {
                b.push("memory_read"@)
            } else {
                b
            };
            if config.memory {
                c.push("memory_recall"@)
            } else {
                c
            }
        }),
    ensures
        n0.contains(name) <==> reading_tool(config, name),
{
    let e = Seq::<Seq<char>>::empty();
    let a = if config.file_read {
        e.push("file_read"@)
    } else {
        e
    };
    let b = if config.file_search {
        a.push("file_search"@)
    } else {
        a
    };
    let c = if config.memory {
        b.push("memory_read"@)
    } else {
        b
    };
    assert(!e.contains(name));
    lemma_contains_push(e, "file_read"@, name);
    lemma_contains_push(a, "file_search"@, name);
    lemma_contains_push(b, "memory_read"@, name);
    lemma_contains_push(c, "memory_recall"@, name);
}

/// With the permission `read-only` no tool that can write is allowed, whatever is switched on.
pub proof fn law_read_only_denies_writing(config: ToolsConfig)
    requires
        config.permission@ == "read-only"@,
    ensures
        !enabled(config, "shell"@),
        !enabled(config, "file_write"@),
        !enabled(config, "ssh_exec"@),
        !enabled(config, "memory_write"@),
        !enabled(config, "todo_write"@),
{
    reveal_strlit("shell");
    reveal_strlit("file_write");
    reveal_strlit("ssh_exec");
    reveal_strlit("memory_write");
    reveal_strlit("todo_write");
    reveal_strlit("file_read");
    reveal_strlit("file_search");
    reveal_strlit("memory_read");
    reveal_strlit("memory_recall");
    reveal_strlit("subagent");
    reveal_strlit("workflow");
    assert("shell"@.len() < "subagent"@.len() == "workflow"@.len() < "file_read"@.len()
        < "file_write"@.len() == "todo_write"@.len() < "file_search"@.len()
        == "memory_read"@.len() < "memory_write"@.len() < "memory_recall"@.len());
    assert("ssh_exec"@[1] != "subagent"@[1]);
    assert("ssh_exec"@[0] != "workflow"@[0]);
}

/// With any other permission every tool that is switched on is allowed.
pub proof fn law_other_permissions_allow_all(config: ToolsConfig, name: Seq<char>)
    requires
        config.permission@ != "read-only"@,
    ensures
        reading_tool(config, name) || writing_tool(config, name) ==> enabled(config, name),
{
}

/// `subagent` and `workflow` are allowed by every configuration.
pub proof fn law_delegation_always_allowed(config: ToolsConfig)
    ensures
        enabled(config, "subagent"@),
        enabled(config, "workflow"@),
{
}

/// Under a permission to write, each tool is there exactly where its switch is on; reading needs no
/// such permission.
pub proof fn law_each_tool_has_its_switch(config: ToolsConfig)
    requires
        config.permission@ != "read-only"@,
    ensures
        enabled(config, "shell"@) <==> config.shell,
        enabled(config, "file_read"@) <==> config.file_read,
        enabled(config, "file_write"@) <==> config.file_write,
        enabled(config, "file_search"@) <==> config.file_search,
        enabled(config, "ssh_exec"@) <==> config.ssh_exec,
        enabled(config, "memory_read"@) <==> config.memory,
        enabled(config, "memory_recall"@) <==> config.memory,
        enabled(config, "memory_write"@) <==> config.memory,
        enabled(config, "todo_write"@) <==> config.todo,
{
    lemma_names_differ();
}

/// Reading depends on the switches alone, whatever the permission.
pub proof fn law_reading_needs_no_permission(config: ToolsConfig)
    ensures
        enabled(config, "file_read"@) <==> config.file_read,
        enabled(config, "file_search"@) <==> config.file_search,
        enabled(config, "memory_read"@) <==> config.memory,
        enabled(config, "memory_recall"@) <==> config.memory,
{
    lemma_names_differ();
}

/// A tool that no switch is for is not there.
pub proof fn law_other_tools_are_not_there(config: ToolsConfig, name: Seq<char>)
    requires
        name != "shell"@ && name != "file_read"@ && name != "file_write"@,
        name != "file_search"@ && name != "ssh_exec"@ && name != "todo_write"@,
        name != "memory_read"@ && name != "memory_write"@ && name != "memory_recall"@,
        name != "subagent"@ && name != "workflow"@,
    ensures
        !enabled(config, name),
        not_enabled(name) == "tool `"@ + name + "` is not enabled in configuration"@,
{
}

proof fn lemma_names_differ()
    ensures
        "shell"@.len() == 5 && "file_read"@.len() == 9 && "memory_write"@.len() == 12,
        "memory_recall"@.len() == 13,
        "file_write"@.len() == 10 && "todo_write"@.len() == 10 && "file_write"@ != "todo_write"@,
        "file_search"@.len() == 11 && "memory_read"@.len() == 11,
        "file_search"@ != "memory_read"@,
        "ssh_exec"@.len() == 8 && "subagent"@.len() == 8 && "workflow"@.len() == 8,
        "ssh_exec"@ != "subagent"@ && "ssh_exec"@ != "workflow"@ && "subagent"@ != "workflow"@,
{
    reveal_strlit("shell");
    reveal_strlit("file_write");
    reveal_strlit("ssh_exec");
    reveal_strlit("memory_write");
    reveal_strlit("todo_write");
    reveal_strlit("file_read");
    reveal_strlit("file_search");
    reveal_strlit("memory_read");
    reveal_strlit("memory_recall");
    reveal_strlit("subagent");
    reveal_strlit("workflow");
    assert("file_write"@[0] != "todo_write"@[0]);
    assert("file_search"@[0] != "memory_read"@[0]);
    assert("ssh_exec"@[1] != "subagent"@[1]);
    assert("ssh_exec"@[0] != "workflow"@[0]);
    assert("subagent"@[0] != "workflow"@[0]);
}

} // verus!
