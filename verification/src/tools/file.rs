//! Tools for files: reading, writing and searching.
use crate::json::{field_models, with_field, Json, JsonV};
use crate::sorting::{law_sorting_orders, law_text_order, sort_texts, sorted_by, text_le};
use crate::text::{
    byte_len, byte_len_of, chars_of, decimal, decimal_text, join, join_texts, texts,
};
use crate::tools::schema::{
    law_one_argument_is_required, law_schemas_describe_their_arguments, lists, make_object_schema,
    make_one_arg_schema, make_text_arg, object_schema, one_arg_schema, text_arg,
};
use crate::tools::ToolPlugin;
use crate::types::{plain_result, ToolDefinition, ToolDefinitionV, ToolResult, ToolResultV};
use vstd::prelude::*;

verus! {

/// The tool that reads a file.
pub struct FileReadTool {}

/// The tool that writes a file.
pub struct FileWriteTool {}

/// The tool that looks for files.
pub struct FileSearchTool {}

impl ToolPlugin for FileReadTool {
    open spec fn described(&self) -> ToolDefinitionV {
        ToolDefinitionV {
            name: "file_read"@,
            description: "Read the contents of a file"@,
            parameters: one_arg_schema("path"@, "Path to the file to read"@),
            timeout_ms: 10000,
            guidance:
                "Use this, not shell cat, to read text files. Results include line numbers."@,
        }
    }

    fn definition(&self) -> (r: ToolDefinition) {
        ToolDefinition {
            name: "file_read".to_owned(),
            description: "Read the contents of a file".to_owned(),
            parameters: make_one_arg_schema("path", "Path to the file to read"),
            timeout_ms: 10000,
            guidance:
                "Use this, not shell cat, to read text files. Results include line numbers.".to_owned(),
        }
    }
}

impl ToolPlugin for FileWriteTool {
    open spec fn described(&self) -> ToolDefinitionV {
        ToolDefinitionV {
            name: "file_write"@,
            description: "Write content to a file (overwrites if exists)"@,
            parameters: object_schema(
                seq![
                    ("path"@, text_arg("Path to the file to write"@)),
                    ("content"@, text_arg("The content to write"@)),
                ],
                seq!["path"@, "content"@],
            ),
            timeout_ms: 10000,
            guidance:
                "Read the file first before editing to avoid overwriting unknown content."@,
        }
    }

    fn definition(&self) -> (r: ToolDefinition) {
        let props: Vec<(String, Json)> = Vec::new();
        let props = with_field(props, "path", make_text_arg("Path to the file to write"));
        let props = with_field(props, "content", make_text_arg("The content to write"));
        assert(field_models(props@) =~= seq![
            ("path"@, text_arg("Path to the file to write"@)),
            ("content"@, text_arg("The content to write"@)),
        ]);
        let mut required: Vec<String> = Vec::new();
        required.push("path".to_owned());
        required.push("content".to_owned());
        assert(texts(required@) =~= seq!["path"@, "content"@]);
        ToolDefinition {
            name: "file_write".to_owned(),
            description: "Write content to a file (overwrites if exists)".to_owned(),
            parameters: make_object_schema(props, &required),
            timeout_ms: 10000,
            guidance:
                "Read the file first before editing to avoid overwriting unknown content.".to_owned(),
        }
    }
}

impl ToolPlugin for FileSearchTool {
    open spec fn described(&self) -> ToolDefinitionV {
        ToolDefinitionV {
            name: "file_search"@,
            description: "List files matching a glob pattern (e.g. *.log, config/*.yaml)"@,
            parameters: object_schema(
                seq![
                    ("pattern"@, text_arg("Glob pattern to match files"@)),
                    (
                        "directory"@,
                        text_arg("Directory to search in (default: current directory)"@),
                    ),
                ],
                seq!["pattern"@],
            ),
            timeout_ms: 15000,
            guidance:
                "Use glob patterns to discover files; prefer specific patterns over broad ones."@,
        }
    }

    fn definition(&self) -> (r: ToolDefinition) {
        let props: Vec<(String, Json)> = Vec::new();
        let props = with_field(props, "pattern", make_text_arg("Glob pattern to match files"));
        let props = with_field(
            props,
            "directory",
            make_text_arg("Directory to search in (default: current directory)"),
        );
        assert(field_models(props@) =~= seq![
            ("pattern"@, text_arg("Glob pattern to match files"@)),
            (
                "directory"@,
                text_arg("Directory to search in (default: current directory)"@),
            ),
        ]);
        let mut required: Vec<String> = Vec::new();
        required.push("pattern".to_owned());
        assert(texts(required@) =~= seq!["pattern"@]);
        ToolDefinition {
            name: "file_search".to_owned(),
            description: "List files matching a glob pattern (e.g. *.log, config/*.yaml)".to_owned(),
            parameters: make_object_schema(props, &required),
            timeout_ms: 15000,
            guidance:
                "Use glob patterns to discover files; prefer specific patterns over broad ones.".to_owned(),
        }
    }
}

/// The text of a field, or `default` where there is none.
pub open spec fn text_or(args: JsonV, field: Seq<char>, default: Seq<char>) -> Seq<char> {
    match args.text_field(field) {
        Some(t) => t,
        None => default,
    }
}

/// The text of a field, or `default` where there is none.
pub fn get_text_or(args: &Json, field: &str, default: &str) -> (r: String)
    ensures
        r@ == text_or(args@, field@, default@),
{
    match args.get_text(field) {
        Some(t) => t.clone(),
        None => default.to_owned(),
    }
}

/// The result of a call that names no path.
pub open spec fn path_missing() -> ToolResultV {
    plain_result("Error: `path` is required"@, true)
}

/// The result of a call that failed.
pub open spec fn failed_with(error: Seq<char>) -> ToolResultV {
    plain_result("Error: "@ + error, true)
}

/// The result of a call that failed.
pub fn make_failed(error: &str) -> (r: ToolResult)
    ensures
        r@ == failed_with(error@),
{
    let mut m = "Error: ".to_owned();
    m.push_str(error);
    ToolResult::plain(m, true)
}

impl FileReadTool {
    /// The file to read, or the result where none is named.
    pub fn prepare(&self, args: &Json) -> (r: Result<String, ToolResult>)
        ensures
            match r {
                Ok(path) => path@.len() > 0 && path@ == text_or(args@, "path"@, Seq::empty()),
                Err(e) => text_or(args@, "path"@, Seq::empty()).len() == 0 && e@ == path_missing(),
            },
    {
        let path = match args.get_text("path") {
            Some(t) => t.clone(),
            None => String::new(),
        };
        if path.as_str().is_empty() {
            return Err(ToolResult::plain("Error: `path` is required".to_owned(), true));
        }
        Ok(path)
    }

    /// The result of reading a file.
    pub fn report(&self, outcome: Result<String, String>) -> (r: ToolResult)
        ensures
            r@ == match outcome {
                Ok(content) => plain_result(content@, false),
                Err(e) => failed_with(e@),
            },
    {
        match outcome {
            Ok(content) => ToolResult::plain(content, false),
            Err(e) => make_failed(e.as_str()),
        }
    }
}

impl FileWriteTool {
    /// The file to write and what to write, or the result where no file is named.
    pub fn prepare(&self, args: &Json) -> (r: Result<(String, String), ToolResult>)
        ensures
            match r {
                Ok((path, content)) => {
                    &&& path@.len() > 0
                    &&& path@ == text_or(args@, "path"@, Seq::empty())
                    &&& content@ == text_or(args@, "content"@, Seq::empty())
                },
                Err(e) => text_or(args@, "path"@, Seq::empty()).len() == 0 && e@ == path_missing(),
            },
    {
        let path = match args.get_text("path") {
            Some(t) => t.clone(),
            None => String::new(),
        };
        let content = match args.get_text("content") {
            Some(t) => t.clone(),
            None => String::new(),
        };
        if path.as_str().is_empty() {
            return Err(ToolResult::plain("Error: `path` is required".to_owned(), true));
        }
        Ok((path, content))
    }

    /// The result of writing a file.
    pub fn report(&self, path: &str, content: &str, outcome: Result<(), String>) -> (r: ToolResult)
        ensures
            r@ == match outcome {
                Ok(_) => plain_result(
                    "Wrote "@ + decimal(byte_len(content@)) + " bytes to "@ + path@,
                    false,
                ),
                Err(e) => failed_with(e@),
            },
    {
        match outcome {
            Ok(_) => {
                let mut m = "Wrote ".to_owned();
                m.push_str(decimal_text(byte_len_of(content) as u64).as_str());
                m.push_str(" bytes to ");
                m.push_str(path);
                ToolResult::plain(m, false)
            },
            Err(e) => make_failed(e.as_str()),
        }
    }
}

/// Whether a text matches a pattern, in which `*` stands for any text and `?` for any character.
pub open spec fn glob(pattern: Seq<char>, text: Seq<char>) -> bool
    decreases pattern.len(),
{
    if pattern.len() == 0 {
        text.len() == 0
    } else if pattern[0] == '*' {
        exists|k: int|
            0 <= k <= text.len() && glob(pattern.drop_first(), #[trigger] text.skip(k))
    } else if pattern[0] == '?' {
        text.len() > 0 && glob(pattern.drop_first(), text.drop_first())
    } else {
        text.len() > 0 && text[0] == pattern[0] && glob(pattern.drop_first(), text.drop_first())
    }
}

/// Whether a text matches a pattern.
pub fn glob_match(pattern: &str, text: &str) -> (r: bool)
    ensures
        r == glob(pattern@, text@),
{
    let p = chars_of(pattern);
    let t = chars_of(text);
    assert(p@.skip(0) =~= p@);
    assert(t@.skip(0) =~= t@);
    glob_match_inner(&p, 0, &t, 0)
}

/// Whether the rest of a text matches the rest of a pattern.
fn glob_match_inner(p: &Vec<char>, pi: usize, t: &Vec<char>, ti: usize) -> (r: bool)
    requires
        pi <= p@.len(),
        ti <= t@.len(),
    ensures
        r == glob(p@.skip(pi as int), t@.skip(ti as int)),
    decreases p@.len() - pi,
{
    let ghost ps = p@.skip(pi as int);
    let ghost ts = t@.skip(ti as int);
    if pi == p.len() {
        return ti == t.len();
    }
    assert(ps.drop_first() =~= p@.skip(pi + 1));
    if p[pi] == '*' {
        let mut at: usize = ti;
        while at <= t.len()
            invariant
                pi < p.len(),
                ti <= at <= t@.len() + 1,
                ps == p@.skip(pi as int),
                ts == t@.skip(ti as int),
                ps.drop_first() == p@.skip(pi + 1),
                ps[0] == '*',
                forall|k: int|
                    0 <= k < at - ti ==> !glob(ps.drop_first(), #[trigger] ts.skip(k)),
            decreases t@.len() + 1 - at,
        {
            assert(ts.skip(at - ti) =~= t@.skip(at as int));
            if glob_match_inner(p, pi + 1, t, at) {
                return true;
            }
            if at == t.len() {
                return false;
            }
            at += 1;
        }
        false
    } else if ti < t.len() && (p[pi] == '?' || t[ti] == p[pi]) {
        assert(ts.drop_first() =~= t@.skip(ti + 1));
        glob_match_inner(p, pi + 1, t, ti + 1)
    } else {
        false
    }
}

/// A file or directory that was found: its name and its path.
pub struct FoundEntry {
    pub name: String,
    pub path: String,
}

/// The names and paths of what was found.
pub open spec fn found_view(entries: Seq<FoundEntry>) -> Seq<(Seq<char>, Seq<char>)> {
    entries.map_values(|e: FoundEntry| (e.name@, e.path@))
}

/// The paths of the entries whose names match a pattern.
pub open spec fn matching_paths(
    entries: Seq<(Seq<char>, Seq<char>)>,
    pattern: Seq<char>,
) -> Seq<Seq<char>>
    decreases entries.len(),
{
    if entries.len() == 0 {
        Seq::empty()
    } else {
        let front = matching_paths(entries.drop_last(), pattern);
        if glob(pattern, entries.last().0) {
            front.push(entries.last().1)
        } else {
            front
        }
    }
}

/// The result of a search among all entries below a directory: the paths that match, in order.
pub open spec fn search_result(
    pattern: Seq<char>,
    dir: Seq<char>,
    entries: Seq<(Seq<char>, Seq<char>)>,
) -> Seq<char> {
    let paths = sorted_by(
        matching_paths(entries, pattern),
        |a: Seq<char>, b: Seq<char>| text_le(a, b),
    );
    if paths.len() == 0 {
        "No files matching '"@ + pattern + "' in "@ + dir
    } else {
        join(paths, "\n"@)
    }
}

impl FileSearchTool {
    /// The pattern to look for and the directory to look in.
    pub fn prepare(&self, args: &Json) -> (r: (String, String))
        ensures
            r.0@ == text_or(args@, "pattern"@, Seq::empty()),
            r.1@ == text_or(args@, "directory"@, "."@),
    {
        let pattern = match args.get_text("pattern") {
            Some(t) => t.clone(),
            None => String::new(),
        };
        (pattern, get_text_or(args, "directory", "."))
    }

    /// The paths of the entries whose names match a pattern, in order.
    pub fn matching(&self, entries: &Vec<FoundEntry>, pattern: &str) -> (r: Vec<String>)
        ensures
            texts(r@) == sorted_by(
                matching_paths(found_view(entries@), pattern@),
                |a: Seq<char>, b: Seq<char>| text_le(a, b),
            ),
    {
        let ghost all = found_view(entries@);
        let mut paths: Vec<String> = Vec::new();
        let mut i: usize = 0;
        assert(all.take(0) =~= Seq::empty());
        assert(texts(paths@) =~= Seq::empty());
        while i < entries.len()
            invariant
                i <= entries@.len(),
                all == found_view(entries@),
                texts(paths@) == matching_paths(all.take(i as int), pattern@),
            decreases entries@.len() - i,
        {
            let ghost before = texts(paths@);
            assert(all.take(i + 1).drop_last() =~= all.take(i as int));
            assert(all.take(i + 1).last() == (entries@[i as int].name@, entries@[i as int].path@));
            if glob_match(pattern, entries[i].name.as_str()) {
                paths.push(entries[i].path.clone());
                assert(texts(paths@) =~= before.push(entries@[i as int].path@));
            }
            i += 1;
        }
        assert(all.take(i as int) =~= all);
        sort_texts(paths)
    }

    /// The result of a search.
    pub fn report(&self, pattern: &str, dir: &str, entries: &Vec<FoundEntry>) -> (r: ToolResult)
        ensures
            r@ == plain_result(search_result(pattern@, dir@, found_view(entries@)), false),
    {
        let paths = self.matching(entries, pattern);
        if paths.len() == 0 {
            let mut m = "No files matching '".to_owned();
            m.push_str(pattern);
            m.push_str("' in ");
            m.push_str(dir);
            ToolResult::plain(m, false)
        } else {
            ToolResult::plain(join_texts(&paths, "\n"), false)
        }
    }
}

/// A pattern without `*` and `?` matches itself and nothing else, and `*` matches everything.
pub proof fn law_plain_pattern_matches_itself(pattern: Seq<char>, text: Seq<char>)
    requires
        forall|i: int| 0 <= i < pattern.len() ==> pattern[i] != '*' && pattern[i] != '?',
    ensures
        glob(pattern, text) <==> text == pattern,
        glob(seq!['*'], text),
    decreases pattern.len(),
{
    let star = seq!['*'];
    assert(star.drop_first() =~= Seq::empty());
    assert(text.skip(text.len() as int).len() == 0);
    assert(glob(star.drop_first(), text.skip(text.len() as int)));
    if pattern.len() == 0 {
        assert(text.len() == 0 ==> text =~= pattern);
    } else {
        if text.len() > 0 {
            law_plain_pattern_matches_itself(pattern.drop_first(), text.drop_first());
            if text[0] == pattern[0] && text.drop_first() == pattern.drop_first() {
                assert(text =~= seq![text[0]] + text.drop_first());
                assert(pattern =~= seq![pattern[0]] + pattern.drop_first());
            }
        }
    }
}

/// A star stands for any text: whatever a pattern matches, the pattern with a star before it matches
/// with any text before it, and it matches nothing else.
pub proof fn law_star_stands_for_any_text(pattern: Seq<char>, a: Seq<char>, b: Seq<char>, text: Seq<char>)
    ensures
        glob(pattern, b) ==> glob(seq!['*'] + pattern, a + b),
        glob(seq!['*'] + pattern, text) ==> exists|k: int|
            0 <= k <= text.len() && text.take(k) + text.skip(k) == text && glob(
                pattern,
                #[trigger] text.skip(k),
            ),
{
    let starred = seq!['*'] + pattern;
    assert(starred.drop_first() =~= pattern);
    assert((a + b).skip(a.len() as int) =~= b);
    if glob(starred, text) {
        let k = choose|k: int|
            0 <= k <= text.len() && glob(starred.drop_first(), #[trigger] text.skip(k));
        assert(text.take(k) + text.skip(k) =~= text);
        assert(glob(pattern, text.skip(k)));
    }
}

/// A question mark stands for any one character, and any other character for itself: such a pattern
/// matches a text exactly where it matches its first character and the rest matches the rest.
pub proof fn law_other_marks_stand_for_one_character(mark: char, pattern: Seq<char>, c: char, text: Seq<char>)
    requires
        mark != '*',
    ensures
        glob(seq![mark] + pattern, seq![c] + text) <==> (mark == '?' || mark == c) && glob(
            pattern,
            text,
        ),
        !glob(seq![mark] + pattern, Seq::empty()),
        glob(Seq::empty(), Seq::empty()),
        !glob(Seq::empty(), seq![c] + text),
{
    assert((seq![mark] + pattern).drop_first() =~= pattern);
    assert((seq![c] + text).drop_first() =~= text);
}

/// The paths that a search gives are those of the entries whose names match, in the order of the
/// entries: what two listings give together is what each gives, one after the other.
pub proof fn law_search_gives_the_matching_paths(
    a: Seq<(Seq<char>, Seq<char>)>,
    b: Seq<(Seq<char>, Seq<char>)>,
    name: Seq<char>,
    path: Seq<char>,
    pattern: Seq<char>,
)
    ensures
        matching_paths(a + b, pattern) == matching_paths(a, pattern) + matching_paths(b, pattern),
        glob(pattern, name) ==> matching_paths(seq![(name, path)], pattern) == seq![path],
        !glob(pattern, name) ==> matching_paths(seq![(name, path)], pattern).len() == 0,
    decreases b.len(),
{
    let one = seq![(name, path)];
    assert(one.drop_last() =~= Seq::empty());
    assert(matching_paths(one.drop_last(), pattern) =~= Seq::empty());
    if glob(pattern, name) {
        assert(matching_paths(one, pattern) =~= seq![path]);
    }
    if b.len() == 0 {
        assert(a + b =~= a);
        assert(matching_paths(a, pattern) + matching_paths(b, pattern) =~= matching_paths(
            a,
            pattern,
        ));
    } else {
        assert((a + b).drop_last() =~= a + b.drop_last());
        law_search_gives_the_matching_paths(a, b.drop_last(), name, path, pattern);
        assert(matching_paths(a + b, pattern) =~= matching_paths(a, pattern) + matching_paths(
            b,
            pattern,
        ));
    }
}

/// An argument that is a text is taken as it is, and what stands for a missing one only where it is
/// missing or no text.
pub proof fn law_arguments_are_taken_as_given(args: JsonV, field: Seq<char>, default: Seq<char>)
    ensures
        args.field(field) is Some && args.field(field)->0 is Text ==> args.field(field) == Some(
            JsonV::Text(text_or(args, field, default)),
        ),
        !(args.field(field) is Some && args.field(field)->0 is Text) ==> text_or(
            args,
            field,
            default,
        ) == default,
        path_missing().is_error,
        failed_with(default).is_error,
        failed_with(default).content == "Error: "@ + default,
{
}

/// A search lists every path whose name matches, each as often as it was found and sorted, one on a
/// line; where none does, that is said, with the pattern and the folder.
pub proof fn law_a_search_lists_what_matches(
    pattern: Seq<char>,
    dir: Seq<char>,
    entries: Seq<(Seq<char>, Seq<char>)>,
    sorted: Seq<Seq<char>>,
)
    requires
        sorted == sorted_by(
            matching_paths(entries, pattern),
            |a: Seq<char>, b: Seq<char>| text_le(a, b),
        ),
    ensures
        matching_paths(entries, pattern).len() == 0 ==> search_result(pattern, dir, entries)
            == "No files matching '"@ + pattern + "' in "@ + dir,
        matching_paths(entries, pattern).len() > 0 ==> search_result(pattern, dir, entries) == join(
            sorted,
            "\n"@,
        ),
        sorted.to_multiset() == matching_paths(entries, pattern).to_multiset(),
{
    let le = |a: Seq<char>, b: Seq<char>| text_le(a, b);
    law_text_order();
    law_sorting_orders(matching_paths(entries, pattern), le);
}

/// The tools for files are offered under their names and require what they cannot do without.
pub proof fn law_file_tools_are_offered(r: FileReadTool, w: FileWriteTool, s: FileSearchTool)
    ensures
        r.described().name == "file_read"@,
        w.described().name == "file_write"@,
        s.described().name == "file_search"@,
        r.described().parameters.field("required"@) is Some,
        lists(r.described().parameters.field("required"@)->0, seq!["path"@]),
        w.described().parameters.field("required"@) is Some,
        lists(w.described().parameters.field("required"@)->0, seq!["path"@, "content"@]),
        s.described().parameters.field("required"@) is Some,
        lists(s.described().parameters.field("required"@)->0, seq!["pattern"@]),
{
    law_one_argument_is_required("path"@, "Path to the file to read"@);
    law_schemas_describe_their_arguments(
        w.described().parameters->Object_0[0].1->Object_0,
        seq!["path"@, "content"@],
        "path"@,
    );
    law_schemas_describe_their_arguments(
        s.described().parameters->Object_0[0].1->Object_0,
        seq!["pattern"@],
        "path"@,
    );
}

} // verus!
