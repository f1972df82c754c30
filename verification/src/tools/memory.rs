//! Tools for the long-term memory.
use crate::json::{field_models, with_field, Json, JsonV};
use crate::memory::{
    entry_for, found, newer_first, stored, written, MemoryEntry, MemoryEntryV, MemoryStore,
};
use crate::sorting::sorted_by;
use crate::text::{decimal, decimal_text, join, join_texts, texts};
use crate::tools::file::text_or;
use crate::tools::schema::{
    law_one_argument_is_required, law_schemas_describe_their_arguments, lists, make_object_schema,
    make_one_arg_schema, make_text_arg, object_schema, one_arg_schema, text_arg,
};
use crate::tools::ToolPlugin;
use crate::types::{plain_result, ToolDefinition, ToolDefinitionV, ToolResult};
use crate::views::views;
use vstd::prelude::*;

verus! {

/// The tool that reads one entry.
pub struct MemoryReadTool {}

/// The tool that writes one entry.
pub struct MemoryWriteTool {}

/// The tool that looks for entries.
pub struct MemoryRecallTool {}

impl ToolPlugin for MemoryReadTool {
    open spec fn described(&self) -> ToolDefinitionV {
        ToolDefinitionV {
            name: "memory_read"@,
            description: "Read a value from long-term memory by exact key."@,
            parameters: one_arg_schema("key"@, "The memory key to read"@),
            timeout_ms: 2000,
            guidance:
                "Use memory_read to recall facts learned in earlier sessions (e.g. device configs, known issues)."@,
        }
    }

    fn definition(&self) -> (r: ToolDefinition) {
        ToolDefinition {
            name: "memory_read".to_owned(),
            description: "Read a value from long-term memory by exact key.".to_owned(),
            parameters: make_one_arg_schema("key", "The memory key to read"),
            timeout_ms: 2000,
            guidance:
                "Use memory_read to recall facts learned in earlier sessions (e.g. device configs, known issues).".to_owned(),
        }
    }
}

/// The arguments of the tool that writes.
pub open spec fn write_args() -> Seq<(Seq<char>, JsonV)> {
    seq![
        ("key"@, text_arg("The memory key"@)),
        ("value"@, text_arg("The value to store"@)),
        ("category"@, text_arg("Optional category tag"@)),
    ]
}

impl ToolPlugin for MemoryWriteTool {
    open spec fn described(&self) -> ToolDefinitionV {
        ToolDefinitionV {
            name: "memory_write"@,
            description: "Write a key-value pair to long-term memory (persists across sessions)."@,
            parameters: object_schema(write_args(), seq!["key"@, "value"@]),
            timeout_ms: 2000,
            guidance:
                "Record durable facts (device IPs, known bugs, config templates) for future sessions."@,
        }
    }

    fn definition(&self) -> (r: ToolDefinition) {
        let props: Vec<(String, Json)> = Vec::new();
        let props = with_field(props, "key", make_text_arg("The memory key"));
        let props = with_field(props, "value", make_text_arg("The value to store"));
        let props = with_field(props, "category", make_text_arg("Optional category tag"));
        assert(field_models(props@) =~= write_args());
        let mut required: Vec<String> = Vec::new();
        required.push("key".to_owned());
        required.push("value".to_owned());
        assert(texts(required@) =~= seq!["key"@, "value"@]);
        ToolDefinition {
            name: "memory_write".to_owned(),
            description:
                "Write a key-value pair to long-term memory (persists across sessions).".to_owned(),
            parameters: make_object_schema(props, &required),
            timeout_ms: 2000,
            guidance:
                "Record durable facts (device IPs, known bugs, config templates) for future sessions.".to_owned(),
        }
    }
}

impl ToolPlugin for MemoryRecallTool {
    open spec fn described(&self) -> ToolDefinitionV {
        ToolDefinitionV {
            name: "memory_recall"@,
            description:
                "Search long-term memory by fuzzy key/value matching. Returns all matching entries."@,
            parameters: one_arg_schema(
                "query"@,
                "Search query (substring match on key and value)"@,
            ),
            timeout_ms: 2000,
            guidance:
                "Use recall when you do not know the exact key; it searches both keys and values."@,
        }
    }

    fn definition(&self) -> (r: ToolDefinition) {
        ToolDefinition {
            name: "memory_recall".to_owned(),
            description:
                "Search long-term memory by fuzzy key/value matching. Returns all matching entries.".to_owned(),
            parameters: make_one_arg_schema(
                "query",
                "Search query (substring match on key and value)",
            ),
            timeout_ms: 2000,
            guidance:
                "Use recall when you do not know the exact key; it searches both keys and values.".to_owned(),
        }
    }
}

/// An entry as it is reported.
pub open spec fn entry_line(e: MemoryEntryV) -> Seq<char> {
    "["@ + match e.category {
        Some(c) => c,
        None => "uncategorized"@,
    } + "] "@ + e.key + " = "@ + e.value
}

/// Entries as they are reported.
pub open spec fn entry_lines(s: Seq<MemoryEntryV>) -> Seq<Seq<char>> {
    s.map_values(|e: MemoryEntryV| entry_line(e))
}

/// What is reported of the entries that a query found.
pub open spec fn recall_report(query: Seq<char>, results: Seq<MemoryEntryV>) -> Seq<char> {
    if results.len() == 0 {
        "No memory entries matching: "@ + query
    } else {
        "Found "@ + decimal(results.len()) + " entries:\n"@ + join(entry_lines(results), "\n"@)
    }
}

impl MemoryReadTool {
    /// Reads an entry, which counts as used at the time `now`.
    pub fn execute(&self, store: &mut MemoryStore, args: &Json, now: u64) -> (r: ToolResult)
        ensures
            ({
                let key = text_or(args@, "key"@, Seq::empty());
                match entry_for(old(store).entries(), key) {
                    Some(e) => {
                        &&& r@ == plain_result(e.value, false)
                        &&& final(store).entries() == stored(
                            old(store).entries(),
                            MemoryEntryV { last_access: now, ..e },
                        )
                    },
                    None => {
                        &&& r@ == plain_result("No memory entry for key: "@ + key, false)
                        &&& final(store).entries() == old(store).entries()
                    },
                }
            }),
            final(store).max_entries() == old(store).max_entries(),
    {
        let key = match args.get_text("key") {
            Some(t) => t.clone(),
            None => String::new(),
        };
        assert(key@ =~= text_or(args@, "key"@, Seq::empty()));
        match store.read(key.as_str(), now) {
            Some(value) => ToolResult::plain(value, false),
            None => {
                let mut m = "No memory entry for key: ".to_owned();
                m.push_str(key.as_str());
                ToolResult::plain(m, false)
            },
        }
    }
}

impl MemoryWriteTool {
    /// Writes an entry at the time `now`; a call without a key writes nothing.
    pub fn execute(&self, store: &mut MemoryStore, args: &Json, now: u64) -> (r: ToolResult)
        ensures
            ({
                let key = text_or(args@, "key"@, Seq::empty());
                let value = text_or(args@, "value"@, Seq::empty());
                if key.len() == 0 {
                    &&& r@ == plain_result("Error: key is required"@, true)
                    &&& final(store).entries() == old(store).entries()
                } else {
                    &&& r@ == plain_result("Stored: "@ + key + " = "@ + value, false)
                    &&& final(store).entries() == written(
                        old(store).entries(),
                        MemoryEntryV {
                            key,
                            value,
                            last_access: now,
                            category: args@.text_field("category"@),
                        },
                        old(store).max_entries() as nat,
                    )
                }
            }),
            final(store).max_entries() == old(store).max_entries(),
    {
        let key = match args.get_text("key") {
            Some(t) => t.clone(),
            None => String::new(),
        };
        let value = match args.get_text("value") {
            Some(t) => t.clone(),
            None => String::new(),
        };
        assert(key@ =~= text_or(args@, "key"@, Seq::empty()));
        assert(value@ =~= text_or(args@, "value"@, Seq::empty()));
        if key.as_str().is_empty() {
            return ToolResult::plain("Error: key is required".to_owned(), true);
        }
        match args.get_text("category") {
            Some(c) => {
                store.write(key.as_str(), value.as_str(), Some(c.as_str()), now);
            },
            None => {
                store.write(key.as_str(), value.as_str(), None, now);
            },
        }
        let mut m = "Stored: ".to_owned();
        m.push_str(key.as_str());
        m.push_str(" = ");
        m.push_str(value.as_str());
        ToolResult::plain(m, false)
    }
}

/// Entries as they are reported.
fn lines_of(entries: &Vec<MemoryEntry>) -> (r: Vec<String>)
    ensures
        texts(r@) == entry_lines(views(entries@)),
{
    let ghost all = entry_lines(views(entries@));
    let mut r: Vec<String> = Vec::new();
    let mut i: usize = 0;
    assert(texts(r@) =~= all.take(0));
    while i < entries.len()
        invariant
            i <= entries@.len(),
            all == entry_lines(views(entries@)),
            texts(r@) == all.take(i as int),
        decreases entries@.len() - i,
    {
        let e = &entries[i];
        let mut line = "[".to_owned();
        match &e.category {
            Some(c) => {
                line.push_str(c.as_str());
            },
            None => {
                line.push_str("uncategorized");
            },
        }
        line.push_str("] ");
        line.push_str(e.key.as_str());
        line.push_str(" = ");
        line.push_str(e.value.as_str());
        assert(line@ == entry_line(e@));
        let ghost before = texts(r@);
        r.push(line);
        assert(texts(r@) =~= before.push(all[i as int]));
        assert(all.take(i + 1) =~= all.take(i as int).push(all[i as int]));
        i += 1;
    }
    assert(all.take(i as int) =~= all);
    r
}

/// What is reported of the entries that a query found.
pub fn report_recall(query: &str, results: &Vec<MemoryEntry>) -> (r: String)
    ensures
        r@ == recall_report(query@, views(results@)),
{
    if results.len() == 0 {
        let mut m = "No memory entries matching: ".to_owned();
        m.push_str(query);
        m
    } else {
        let lines = lines_of(results);
        let mut m = "Found ".to_owned();
        m.push_str(decimal_text(results.len() as u64).as_str());
        m.push_str(" entries:\n");
        m.push_str(join_texts(&lines, "\n").as_str());
        m
    }
}

impl MemoryRecallTool {
    /// Looks for entries.
    pub fn execute(&self, store: &MemoryStore, args: &Json) -> (r: ToolResult)
        ensures
            r@ == plain_result(
                recall_report(
                    text_or(args@, "query"@, Seq::empty()),
                    sorted_by(
                        found(store.entries(), text_or(args@, "query"@, Seq::empty())),
                        newer_first(),
                    ),
                ),
                false,
            ),
    {
        let query = match args.get_text("query") {
            Some(t) => t.clone(),
            None => String::new(),
        };
        assert(query@ =~= text_or(args@, "query"@, Seq::empty()));
        let results = store.recall(query.as_str());
        ToolResult::plain(report_recall(query.as_str(), &results), false)
    }
}

/// What is recalled is listed whole, in the order in which it was found: how many entries there are,
/// and a line for each with its category, its key and its value. Where nothing is found, that is
/// said.
pub proof fn law_recalled_entries_are_listed(
    query: Seq<char>,
    results: Seq<MemoryEntryV>,
    e: MemoryEntryV,
)
    ensures
        recall_report(query, Seq::empty()) == "No memory entries matching: "@ + query,
        results.len() > 0 ==> recall_report(query, results) == "Found "@ + decimal(results.len())
            + " entries:\n"@ + join(entry_lines(results), "\n"@),
        entry_lines(results).len() == results.len(),
        entry_lines(results.push(e)) == entry_lines(results).push(entry_line(e)),
        e.category is Some ==> entry_line(e) == "["@ + e.category->0 + "] "@ + e.key + " = "@
            + e.value,
        e.category is None ==> entry_line(e) == "["@ + "uncategorized"@ + "] "@ + e.key + " = "@
            + e.value,
{
    assert(entry_lines(results.push(e)) =~= entry_lines(results).push(entry_line(e)));
}

/// The tools for the memory are offered under their names and require what they cannot do without.
pub proof fn law_memory_tools_are_offered(
    r: MemoryReadTool,
    w: MemoryWriteTool,
    c: MemoryRecallTool,
)
    ensures
        r.described().name == "memory_read"@,
        w.described().name == "memory_write"@,
        c.described().name == "memory_recall"@,
        r.described().parameters.field("required"@) is Some,
        lists(r.described().parameters.field("required"@)->0, seq!["key"@]),
        w.described().parameters.field("required"@) is Some,
        lists(w.described().parameters.field("required"@)->0, seq!["key"@, "value"@]),
        c.described().parameters.field("required"@) is Some,
        lists(c.described().parameters.field("required"@)->0, seq!["query"@]),
{
    law_one_argument_is_required("key"@, "The memory key to read"@);
    law_one_argument_is_required("query"@, "Search query (substring match on key and value)"@);
    law_schemas_describe_their_arguments(write_args(), seq!["key"@, "value"@], "key"@);
}

} // verus!
