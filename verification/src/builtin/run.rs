//! What each built-in tool asks for, which permission it needs, what it does, and what it answers.
//!
//! A call is carried out in three steps. A plan is made from the arguments and the context, or the
//! call is refused. The plan's file or process work is done by the caller. The outcome of that work
//! becomes the answer.
use vstd::prelude::*;
use vstd::string::*;

use super::search::{GrepMatch, ListedEntry};
use crate::tools::{
    Json, JsonNumber, JsonView, Permission, PermissionAction, ToolCtx, ToolRegistry, ToolResult,
    ToolSchema,
};

verus! {

/// A property of a schema: name, type and description.
pub struct Property {
    /// Name.
    pub name: &'static str,
    /// Type.
    pub kind: &'static str,
    /// Description.
    pub description: &'static str,
}

/// A property as it stands in a schema.
pub open spec fn property_view(p: Property) -> (Seq<char>, JsonView) {
    (
        p.name@,
        JsonView::Object(
            seq![
                ("description"@, JsonView::Text(p.description@)),
                ("type"@, JsonView::Text(p.kind@)),
            ],
        ),
    )
}

/// A schema of an object with these properties, of which some are required.
pub open spec fn schema_view(props: Seq<Property>, required: Seq<Seq<char>>) -> JsonView {
    let properties = JsonView::Object(props.map_values(|p: Property| property_view(p)));
    if required.len() == 0 {
        JsonView::Object(
            seq![("properties"@, properties), ("type"@, JsonView::Text("object"@))],
        )
    } else {
        JsonView::Object(
            seq![
                ("properties"@, properties),
                (
                    "required"@,
                    JsonView::Array(required.map_values(|n: Seq<char>| JsonView::Text(n))),
                ),
                ("type"@, JsonView::Text("object"@)),
            ],
        )
    }
}

fn property_json(p: &Property) -> (r: (String, Json))
    ensures
        (r.0@, r.1@) == property_view(*p),
{
    let mut fields: Vec<(String, Json)> = Vec::new();
    fields.push(("description".to_owned(), Json::text(p.description)));
    fields.push(("type".to_owned(), Json::text(p.kind)));
    proof {
        crate::tools::lemma_object_view(fields@);
        assert(crate::tools::object_view(fields@) =~= seq![
            ("description"@, JsonView::Text(p.description@)),
            ("type"@, JsonView::Text(p.kind@)),
        ]);
    }
    (p.name.to_owned(), Json::Object(fields))
}

fn schema_json(props: &[Property], required: &[&'static str]) -> (r: Json)
    ensures
        r@ == schema_view(props@, required@.map_values(|n: &'static str| n@)),
{
    let ghost names = required@.map_values(|n: &'static str| n@);
    let mut properties: Vec<(String, Json)> = Vec::new();
    let mut i: usize = 0;
    while i < props.len()
        invariant
            i <= props.len(),
            properties@.len() == i,
            forall|k: int|
                0 <= k < i ==> (
                (#[trigger] properties@[k]).0@,
                properties@[k].1@,
            ) == property_view(props@[k]),
        decreases props.len() - i,
    {
        properties.push(property_json(&props[i]));
        i = i + 1;
    }
    proof {
        crate::tools::lemma_object_view(properties@);
        assert(crate::tools::object_view(properties@) =~= props@.map_values(
            |p: Property| property_view(p),
        ));
    }
    let mut list: Vec<Json> = Vec::new();
    let mut j: usize = 0;
    while j < required.len()
        invariant
            j <= required.len(),
            list@.len() == j,
            forall|k: int| 0 <= k < j ==> (#[trigger] list@[k])@ == JsonView::Text(required@[k]@),
        decreases required.len() - j,
    {
        list.push(Json::text(required[j]));
        j = j + 1;
    }
    proof {
        crate::tools::lemma_array_view(list@);
        assert(crate::tools::array_view(list@) =~= names.map_values(
            |n: Seq<char>| JsonView::Text(n),
        ));
    }
    let ghost pv = JsonView::Object(props@.map_values(|p: Property| property_view(p)));
    let mut fields: Vec<(String, Json)> = Vec::new();
    fields.push(("properties".to_owned(), Json::Object(properties)));
    if required.len() > 0 {
        fields.push(("required".to_owned(), Json::Array(list)));
    }
    fields.push(("type".to_owned(), Json::text("object")));
    proof {
        crate::tools::lemma_object_view(fields@);
        if required@.len() > 0 {
            assert(crate::tools::object_view(fields@) =~= seq![
                ("properties"@, pv),
                (
                    "required"@,
                    JsonView::Array(names.map_values(|n: Seq<char>| JsonView::Text(n))),
                ),
                ("type"@, JsonView::Text("object"@)),
            ]);
        } else {
            assert(crate::tools::object_view(fields@) =~= seq![
                ("properties"@, pv),
                ("type"@, JsonView::Text("object"@)),
            ]);
        }
    }
    Json::Object(fields)
}

/// A schema with this name, description, properties and required names.
pub open spec fn is_schema(
    s: ToolSchema,
    name: Seq<char>,
    description: Seq<char>,
    props: Seq<Property>,
    required: Seq<Seq<char>>,
) -> bool {
    &&& s.name@ == name
    &&& s.description@ == description
    &&& s.parameters@ == schema_view(props, required)
}

fn schema(
    name: &str,
    description: &str,
    props: &[Property],
    required: &[&'static str],
) -> (r: ToolSchema)
    ensures
        is_schema(
            r,
            name@,
            description@,
            props@,
            required@.map_values(|n: &'static str| n@),
        ),
{
    ToolSchema {
        name: name.to_owned(),
        description: description.to_owned(),
        parameters: schema_json(props, required),
    }
}

/// The `read` tool.
#[derive(Debug, Clone, Copy, PartialEq, Eq, Structural)]
pub struct ReadTool;

impl ReadTool {
    /// What the tool asks for.
    pub open spec fn properties() -> Seq<Property> {
        seq![
            Property { name: "max_bytes", kind: "integer", description: "Optional per-call byte cap." },
            Property { name: "path", kind: "string", description: "File path to read." },
        ]
    }

    /// The schema of the tool.
    pub open spec fn has_schema(s: ToolSchema) -> bool {
        is_schema(
            s,
            "read"@,
            "Read a UTF-8 text file inside the readable workspace roots. Lines are prefixed with stable edit tags like 12:3af|; pass those tags to the edit tool."@,
            ReadTool::properties(),
            seq!["path"@],
        )
    }

    /// The schema of the tool.
    pub fn schema(&self) -> (r: ToolSchema)
        ensures
            ReadTool::has_schema(r),
    {
        let props: Vec<Property> = vec![
                Property { name: "max_bytes", kind: "integer", description: "Optional per-call byte cap." },
                Property { name: "path", kind: "string", description: "File path to read." },
        ];
        let required: Vec<&'static str> = vec!["path"];
        proof {
            assert(props@ =~= ReadTool::properties());
            assert(required@.map_values(|n: &'static str| n@) =~= seq!["path"@]);
        }
        schema(
            "read",
            "Read a UTF-8 text file inside the readable workspace roots. Lines are prefixed with stable edit tags like 12:3af|; pass those tags to the edit tool.",
            props.as_slice(),
            required.as_slice(),
        )
    }
}

/// The `list` tool.
#[derive(Debug, Clone, Copy, PartialEq, Eq, Structural)]
pub struct ListTool;

impl ListTool {
    /// What the tool asks for.
    pub open spec fn properties() -> Seq<Property> {
        seq![
            Property { name: "path", kind: "string", description: "Directory path to list." },
            Property { name: "recursive", kind: "boolean", description: "Whether to walk recursively." },
        ]
    }

    /// The schema of the tool.
    pub open spec fn has_schema(s: ToolSchema) -> bool {
        is_schema(
            s,
            "list"@,
            "List directory entries inside the readable workspace roots."@,
            ListTool::properties(),
            Seq::<Seq<char>>::empty(),
        )
    }

    /// The schema of the tool.
    pub fn schema(&self) -> (r: ToolSchema)
        ensures
            ListTool::has_schema(r),
    {
        let props: Vec<Property> = vec![
                Property { name: "path", kind: "string", description: "Directory path to list." },
                Property { name: "recursive", kind: "boolean", description: "Whether to walk recursively." },
        ];
        let required: Vec<&'static str> = Vec::new();
        proof {
            assert(props@ =~= ListTool::properties());
            assert(required@.map_values(|n: &'static str| n@) =~= Seq::<Seq<char>>::empty());
        }
        schema(
            "list",
            "List directory entries inside the readable workspace roots.",
            props.as_slice(),
            required.as_slice(),
        )
    }
}

/// The `glob` tool.
#[derive(Debug, Clone, Copy, PartialEq, Eq, Structural)]
pub struct GlobTool;

impl GlobTool {
    /// What the tool asks for.
    pub open spec fn properties() -> Seq<Property> {
        seq![
            Property { name: "path", kind: "string", description: "Directory to search from." },
            Property { name: "pattern", kind: "string", description: "Pattern supporting * and ?." },
        ]
    }

    /// The schema of the tool.
    pub open spec fn has_schema(s: ToolSchema) -> bool {
        is_schema(
            s,
            "glob"@,
            "Find paths matching a simple glob pattern inside the readable workspace roots."@,
            GlobTool::properties(),
            seq!["pattern"@],
        )
    }

    /// The schema of the tool.
    pub fn schema(&self) -> (r: ToolSchema)
        ensures
            GlobTool::has_schema(r),
    {
        let props: Vec<Property> = vec![
                Property { name: "path", kind: "string", description: "Directory to search from." },
                Property { name: "pattern", kind: "string", description: "Pattern supporting * and ?." },
        ];
        let required: Vec<&'static str> = vec!["pattern"];
        proof {
            assert(props@ =~= GlobTool::properties());
            assert(required@.map_values(|n: &'static str| n@) =~= seq!["pattern"@]);
        }
        schema(
            "glob",
            "Find paths matching a simple glob pattern inside the readable workspace roots.",
            props.as_slice(),
            required.as_slice(),
        )
    }
}

/// The `grep` tool.
#[derive(Debug, Clone, Copy, PartialEq, Eq, Structural)]
pub struct GrepTool;

impl GrepTool {
    /// What the tool asks for.
    pub open spec fn properties() -> Seq<Property> {
        seq![
            Property { name: "case_sensitive", kind: "boolean", description: "Defaults to true." },
            Property { name: "path", kind: "string", description: "File or directory to search." },
            Property { name: "pattern", kind: "string", description: "Literal text to search for." },
        ]
    }

    /// The schema of the tool.
    pub open spec fn has_schema(s: ToolSchema) -> bool {
        is_schema(
            s,
            "grep"@,
            "Search text files for a literal pattern inside readable workspace roots."@,
            GrepTool::properties(),
            seq!["pattern"@],
        )
    }

    /// The schema of the tool.
    pub fn schema(&self) -> (r: ToolSchema)
        ensures
            GrepTool::has_schema(r),
    {
        let props: Vec<Property> = vec![
                Property { name: "case_sensitive", kind: "boolean", description: "Defaults to true." },
                Property { name: "path", kind: "string", description: "File or directory to search." },
                Property { name: "pattern", kind: "string", description: "Literal text to search for." },
        ];
        let required: Vec<&'static str> = vec!["pattern"];
        proof {
            assert(props@ =~= GrepTool::properties());
            assert(required@.map_values(|n: &'static str| n@) =~= seq!["pattern"@]);
        }
        schema(
            "grep",
            "Search text files for a literal pattern inside readable workspace roots.",
            props.as_slice(),
            required.as_slice(),
        )
    }
}

/// The `write` tool.
#[derive(Debug, Clone, Copy, PartialEq, Eq, Structural)]
pub struct WriteTool;

impl WriteTool {
    /// What the tool asks for.
    pub open spec fn properties() -> Seq<Property> {
        seq![
            Property { name: "content", kind: "string", description: "Full file content." },
            Property { name: "path", kind: "string", description: "File path to write." },
        ]
    }

    /// The schema of the tool.
    pub open spec fn has_schema(s: ToolSchema) -> bool {
        is_schema(
            s,
            "write"@,
            "Write a UTF-8 text file inside writable workspace roots."@,
            WriteTool::properties(),
            seq!["path"@, "content"@],
        )
    }

    /// The schema of the tool.
    pub fn schema(&self) -> (r: ToolSchema)
        ensures
            WriteTool::has_schema(r),
    {
        let props: Vec<Property> = vec![
                Property { name: "content", kind: "string", description: "Full file content." },
                Property { name: "path", kind: "string", description: "File path to write." },
        ];
        let required: Vec<&'static str> = vec!["path", "content"];
        proof {
            assert(props@ =~= WriteTool::properties());
            assert(required@.map_values(|n: &'static str| n@) =~= seq!["path"@, "content"@]);
        }
        schema(
            "write",
            "Write a UTF-8 text file inside writable workspace roots.",
            props.as_slice(),
            required.as_slice(),
        )
    }
}

/// The `edit` tool.
#[derive(Debug, Clone, Copy, PartialEq, Eq, Structural)]
pub struct EditTool;

impl EditTool {
    /// What the tool asks for.
    pub open spec fn properties() -> Seq<Property> {
        seq![
            Property { name: "after", kind: "string", description: "Line tag from read. Inserts new text after this line." },
            Property { name: "end", kind: "string", description: "Optional inclusive end line tag from read for range replacement." },
            Property { name: "new", kind: "string", description: "Replacement or insertion text without hash prefixes." },
            Property { name: "old", kind: "string", description: "Legacy exact text to replace when hash tags are not supplied." },
            Property { name: "path", kind: "string", description: "File path to edit." },
            Property { name: "replace_all", kind: "boolean", description: "Replace all matches instead of the first." },
            Property { name: "start", kind: "string", description: "Start line tag from read, e.g. 12:3af. Replaces this line when end is omitted." },
        ]
    }

    /// The schema of the tool.
    pub open spec fn has_schema(s: ToolSchema) -> bool {
        is_schema(
            s,
            "edit"@,
            "Edit a UTF-8 file using line hash tags returned by read. Replace one line with start, a range with start/end, or insert after a tag with after. Legacy old/new replacement is still accepted."@,
            EditTool::properties(),
            seq!["path"@, "new"@],
        )
    }

    /// The schema of the tool.
    pub fn schema(&self) -> (r: ToolSchema)
        ensures
            EditTool::has_schema(r),
    {
        let props: Vec<Property> = vec![
                Property { name: "after", kind: "string", description: "Line tag from read. Inserts new text after this line." },
                Property { name: "end", kind: "string", description: "Optional inclusive end line tag from read for range replacement." },
                Property { name: "new", kind: "string", description: "Replacement or insertion text without hash prefixes." },
                Property { name: "old", kind: "string", description: "Legacy exact text to replace when hash tags are not supplied." },
                Property { name: "path", kind: "string", description: "File path to edit." },
                Property { name: "replace_all", kind: "boolean", description: "Replace all matches instead of the first." },
                Property { name: "start", kind: "string", description: "Start line tag from read, e.g. 12:3af. Replaces this line when end is omitted." },
        ];
        let required: Vec<&'static str> = vec!["path", "new"];
        proof {
            assert(props@ =~= EditTool::properties());
            assert(required@.map_values(|n: &'static str| n@) =~= seq!["path"@, "new"@]);
        }
        schema(
            "edit",
            "Edit a UTF-8 file using line hash tags returned by read. Replace one line with start, a range with start/end, or insert after a tag with after. Legacy old/new replacement is still accepted.",
            props.as_slice(),
            required.as_slice(),
        )
    }
}

/// The `bash` tool.
#[derive(Debug, Clone, Copy, PartialEq, Eq, Structural)]
pub struct BashTool;

impl BashTool {
    /// What the tool asks for.
    pub open spec fn properties() -> Seq<Property> {
        seq![
            Property { name: "command", kind: "string", description: "Command to run with bash -lc." },
        ]
    }

    /// The schema of the tool.
    pub open spec fn has_schema(s: ToolSchema) -> bool {
        is_schema(
            s,
            "bash"@,
            "Run a non-interactive bash command in the workspace."@,
            BashTool::properties(),
            seq!["command"@],
        )
    }

    /// The schema of the tool.
    pub fn schema(&self) -> (r: ToolSchema)
        ensures
            BashTool::has_schema(r),
    {
        let props: Vec<Property> = vec![
                Property { name: "command", kind: "string", description: "Command to run with bash -lc." },
        ];
        let required: Vec<&'static str> = vec!["command"];
        proof {
            assert(props@ =~= BashTool::properties());
            assert(required@.map_values(|n: &'static str| n@) =~= seq!["command"@]);
        }
        schema(
            "bash",
            "Run a non-interactive bash command in the workspace.",
            props.as_slice(),
            required.as_slice(),
        )
    }
}

/// The names of the built-in tools.
pub open spec fn is_builtin(name: Seq<char>) -> bool {
    ||| name == "read"@
    ||| name == "list"@
    ||| name == "glob"@
    ||| name == "grep"@
    ||| name == "write"@
    ||| name == "edit"@
    ||| name == "bash"@
}

/// A schema that is that of the built-in tool of its name.
pub open spec fn is_builtin_schema(s: ToolSchema) -> bool {
    ||| ReadTool::has_schema(s)
    ||| ListTool::has_schema(s)
    ||| GlobTool::has_schema(s)
    ||| GrepTool::has_schema(s)
    ||| WriteTool::has_schema(s)
    ||| EditTool::has_schema(s)
    ||| BashTool::has_schema(s)
}

/// The schema of a built-in tool, by name.
pub fn builtin_schema(name: &str) -> (r: Option<ToolSchema>)
    ensures
        r is Some == is_builtin(name@),
        r is Some ==> r->0.name@ == name@ && is_builtin_schema(r->0),
{
    if crate::text::same(name, "read") {
        return Some(ReadTool.schema());
    }
    if crate::text::same(name, "list") {
        return Some(ListTool.schema());
    }
    if crate::text::same(name, "glob") {
        return Some(GlobTool.schema());
    }
    if crate::text::same(name, "grep") {
        return Some(GrepTool.schema());
    }
    if crate::text::same(name, "write") {
        return Some(WriteTool.schema());
    }
    if crate::text::same(name, "edit") {
        return Some(EditTool.schema());
    }
    if crate::text::same(name, "bash") {
        return Some(BashTool.schema());
    }
    None
}

/// The standard set of built-in tools.
pub open spec fn standard_names() -> Seq<Seq<char>> {
    seq!["read"@, "list"@, "glob"@, "grep"@, "write"@, "edit"@, "bash"@]
}

/// The standard set of built-in tools.
pub fn standard_builtins() -> (r: Vec<&'static str>)
    ensures
        r@.map_values(|n: &'static str| n@) == standard_names(),
{
    let r: Vec<&'static str> = vec!["read", "list", "glob", "grep", "write", "edit", "bash"];
    assert(r@.map_values(|n: &'static str| n@) =~= standard_names());
    r
}

/// Which of the tools a registry made from these names holds.
pub open spec fn is_selected(names: Seq<Seq<char>>, name: Seq<char>) -> bool {
    is_builtin(name) && (if names.len() == 0 {
        standard_names().contains(name)
    } else {
        names.contains(name)
    })
}

proof fn lemma_with_tool(tools: Seq<ToolSchema>, tool: ToolSchema, x: Seq<char>)
    ensures
        ({
            let new = crate::tools::with_tool(tools, tool);
            &&& crate::tools::names_of(new).contains(x) == (crate::tools::names_of(tools).contains(
                x,
            ) || x == tool.name@)
            &&& (forall|i: int| 0 <= i < tools.len() ==> is_builtin_schema(#[trigger] tools[i]))
                && is_builtin_schema(tool) ==> forall|i: int|
                0 <= i < new.len() ==> is_builtin_schema(#[trigger] new[i])
        }),
{
    let names = crate::tools::names_of(tools);
    let new = crate::tools::with_tool(tools, tool);
    let all = crate::tools::names_of(new);
    let k = crate::tools::place_of(names, tool.name@);
    lemma_place_bounds(names, tool.name@);
    if k < tools.len() && tools[k].name@ == tool.name@ {
        assert(all =~= names.update(k, tool.name@));
        assert(names[k] == tool.name@);
        assert(all =~= names);
        if x == tool.name@ {
            assert(all[k] == x);
        }
    } else {
        assert(all =~= names.insert(k, tool.name@));
        assert(all[k] == tool.name@);
        if names.contains(x) {
            let i = choose|i: int| 0 <= i < names.len() && names[i] == x;
            let j = if i < k {
                i
            } else {
                i + 1
            };
            assert(all[j] == x);
        }
        if all.contains(x) && x != tool.name@ {
            let i = choose|i: int| 0 <= i < all.len() && all[i] == x;
            let j = if i < k {
                i
            } else {
                i - 1
            };
            assert(names[j] == x);
        }
    }
}

proof fn lemma_place_bounds(names: Seq<Seq<char>>, name: Seq<char>)
    ensures
        0 <= crate::tools::place_of(names, name) <= names.len(),
    decreases names.len(),
{
    if names.len() > 0 {
        lemma_place_bounds(names.drop_first(), name);
    }
}

/// A registry of the built-in tools with the given names; unknown names are passed over, and no
/// names at all mean the standard set.
pub fn builtins(names: &[String]) -> (r: ToolRegistry)
    ensures
        r.wf(),
        forall|name: Seq<char>|
            #[trigger] crate::tools::names_of(r.entries()).contains(name) == is_selected(
                crate::text::views(names@),
                name,
            ),
        forall|i: int| 0 <= i < r.entries().len() ==> is_builtin_schema(#[trigger] r.entries()[i]),
{
    let mut selected: Vec<String> = Vec::new();
    if names.len() == 0 {
        let standard: Vec<&'static str> = standard_builtins();
        let mut i: usize = 0;
        while i < standard.len()
            invariant
                i <= standard.len(),
                standard@.map_values(|n: &'static str| n@) == standard_names(),
                crate::text::views(selected@) =~= standard_names().take(i as int),
            decreases standard.len() - i,
        {
            let ghost before = crate::text::views(selected@);
            selected.push(standard[i].to_owned());
            i = i + 1;
            proof {
                assert(standard_names()[i - 1] == standard@[i - 1]@);
                assert(crate::text::views(selected@) =~= before.push(standard_names()[i - 1]));
            }
        }
        assert(standard_names().take(i as int) =~= standard_names());
    } else {
        let mut i: usize = 0;
        while i < names.len()
            invariant
                i <= names.len(),
                crate::text::views(selected@) =~= crate::text::views(names@).take(i as int),
            decreases names.len() - i,
        {
            let ghost before = crate::text::views(selected@);
            selected.push(names[i].clone());
            i = i + 1;
            proof {
                assert(crate::text::views(selected@) =~= before.push(names@[i - 1]@));
            }
        }
        assert(crate::text::views(names@).take(i as int) =~= crate::text::views(names@));
    }
    let ghost wanted = crate::text::views(selected@);
    let mut registry: ToolRegistry = ToolRegistry::new();
    let mut i: usize = 0;
    while i < selected.len()
        invariant
            i <= selected.len(),
            wanted == crate::text::views(selected@),
            registry.wf(),
            forall|name: Seq<char>|
                #[trigger] crate::tools::names_of(registry.entries()).contains(name) == (is_builtin(
                    name,
                ) && wanted.take(i as int).contains(name)),
            forall|k: int|
                0 <= k < registry.entries().len() ==> is_builtin_schema(
                    #[trigger] registry.entries()[k],
                ),
        decreases selected.len() - i,
    {
        let ghost before = registry.entries();
        let ghost was = wanted.take(i as int);
        let ghost now = wanted.take(i + 1);
        let ghost this = selected@[i as int]@;
        proof {
            assert(now =~= was.push(this));
            assert forall|name: Seq<char>| now.contains(name) == (was.contains(name) || name
                == this) by {
                if was.contains(name) {
                    let k = choose|k: int| 0 <= k < was.len() && was[k] == name;
                    assert(now[k] == name);
                }
                if name == this {
                    assert(now[i as int] == name);
                }
            }
        }
        match builtin_schema(selected[i].as_str()) {
            Some(tool) => {
                registry.register(tool);
                proof {
                    assert forall|name: Seq<char>|
                        #[trigger] crate::tools::names_of(registry.entries()).contains(name) == (
                        is_builtin(name) && now.contains(name)) by {
                        lemma_with_tool(before, tool, name);
                        assert(crate::tools::names_of(before).contains(name) == (is_builtin(name)
                            && was.contains(name)));
                    }
                    lemma_with_tool(before, tool, this);
                }
            },
            None => {},
        }
        i = i + 1;
    }
    assert(wanted.take(i as int) =~= wanted);
    registry
}

/// A permission request about `subject`.
pub open spec fn is_request(
    p: Permission,
    key: Seq<char>,
    subject: Seq<char>,
    action: PermissionAction,
    what: Seq<char>,
) -> bool {
    &&& p.key@ == key
    &&& p.subject@ == subject
    &&& p.default_action == action
    &&& p.summary@ == what + ": "@ + subject
    &&& p.detail@ == subject
}

fn request(key: &str, subject: String, action: PermissionAction, what: &str) -> (r: Permission)
    ensures
        is_request(r, key@, subject@, action, what@),
{
    Permission {
        key: key.to_owned(),
        summary: crate::text::join3(what, ": ", subject.as_str()),
        detail: subject.clone(),
        subject,
        default_action: action,
    }
}

/// The path in an argument, resolved; empty where there is none.
pub open spec fn path_argument(args: JsonView, ctx: ToolCtx, key: Seq<char>) -> Seq<char> {
    match args.text_field(key) {
        Some(p) => super::paths::resolved(ctx.cwd@, p),
        None => Seq::empty(),
    }
}

/// The path in an argument, resolved; the working directory where there is none.
pub open spec fn path_or_cwd(args: JsonView, ctx: ToolCtx, key: Seq<char>) -> Seq<char> {
    match args.text_field(key) {
        Some(p) => super::paths::resolved(ctx.cwd@, p),
        None => ctx.cwd@,
    }
}

fn resolve_arg_path(args: &Json, ctx: &ToolCtx, key: &str) -> (r: String)
    ensures
        r@ == path_argument(args@, *ctx, key@),
{
    match args.get_text(key) {
        Some(p) => super::paths::resolve_path(ctx, p.as_str()),
        None => String::new(),
    }
}

fn resolve_arg_path_or_cwd(args: &Json, ctx: &ToolCtx, key: &str) -> (r: String)
    ensures
        r@ == path_or_cwd(args@, *ctx, key@),
{
    match args.get_text(key) {
        Some(p) => super::paths::resolve_path(ctx, p.as_str()),
        None => ctx.cwd.clone(),
    }
}

fn text_or_empty(args: &Json, key: &str) -> (r: String)
    ensures
        r@ == (match args@.text_field(key@) {
            Some(t) => t,
            None => Seq::empty(),
        }),
{
    match args.get_text(key) {
        Some(t) => t,
        None => String::new(),
    }
}

/// A file that a search comes to.
pub open spec fn file_view(path: &str, text: Option<&str>) -> super::search::FileView {
    super::search::FileView {
        path: path@,
        text: match text {
            Some(t) => Some(t@),
            None => None,
        },
    }
}

/// Bytes as text, as `String::from_utf8_lossy` has it.
pub uninterp spec fn lossy_text(bytes: Seq<u8>) -> Seq<char>;

/// `String::from_utf8_lossy`: bytes as text, what is no UTF-8 replaced. Bytes that are UTF-8 are
/// decoded as they stand; what stands in for the others is left to the name.
#[verifier::external_body]
fn lossy(bytes: &[u8]) -> (r: String)
    ensures
        r@ == lossy_text(bytes@),
        vstd::utf8::valid_utf8(bytes@) ==> r@ == vstd::utf8::decode_utf8(bytes@),
{
    String::from_utf8_lossy(bytes).to_string()
}

/// At most the first `cap` bytes.
pub open spec fn head(bytes: Seq<u8>, cap: int) -> Seq<u8> {
    if bytes.len() > cap {
        bytes.take(cap)
    } else {
        bytes
    }
}

/// At most the first `cap` bytes, as text.
pub fn cap_text(bytes: &[u8], cap: usize) -> (r: String)
    ensures
        r@ == lossy_text(head(bytes@, cap as int)),
{
    if bytes.len() > cap {
        assert(bytes@.subrange(0, cap as int) =~= bytes@.take(cap as int));
        lossy(vstd::slice::slice_subrange(bytes, 0, cap))
    } else {
        lossy(bytes)
    }
}

/// What a `read` call is to read.
#[derive(Debug, PartialEq, Eq)]
pub struct ReadPlan {
    /// The file.
    pub path: String,
    /// How many bytes of it are shown at most.
    pub cap: usize,
}

impl ReadTool {
    /// The permission that a call needs.
    pub fn permission(&self, args: &Json, ctx: &ToolCtx) -> (r: Permission)
        ensures
            is_request(
                r,
                "read"@,
                path_argument(args@, *ctx, "path"@),
                PermissionAction::Allow,
                "read file"@,
            ),
    {
        request(
            "read",
            resolve_arg_path(args, ctx, "path"),
            PermissionAction::Allow,
            "read file",
        )
    }

    /// What to read, or the answer that refuses the call.
    pub fn plan(&self, args: &Json, ctx: &ToolCtx) -> (r: Result<ReadPlan, ToolResult>)
        ensures
            match args@.text_field("path"@) {
                None => r matches Err(e) && e.is_error("missing path"@),
                Some(p) => {
                    let full = super::paths::resolved(ctx.cwd@, p);
                    if !super::paths::lies_in_any(full, ctx.readable_roots@) {
                        r matches Err(e) && e.is_error("path is outside readable roots"@)
                    } else {
                        &&& r is Ok
                        &&& r->Ok_0.path@ == full
                        &&& r->Ok_0.cap == (match args@.unsigned_field("max_bytes"@) {
                            Some(n) if n < ctx.max_output_bytes => n as usize,
                            _ => ctx.max_output_bytes,
                        })
                    }
                },
            },
    {
        let path: String = match args.get_text("path") {
            Some(p) => super::paths::resolve_path(ctx, p.as_str()),
            None => {
                return Err(ToolResult::error("missing path"));
            },
        };
        if !super::paths::inside_any(path.as_str(), ctx.readable_roots.as_slice()) {
            return Err(ToolResult::error("path is outside readable roots"));
        }
        let cap: usize = match args.get_unsigned("max_bytes") {
            Some(n) => if n < ctx.max_output_bytes as u64 {
                n as usize
            } else {
                ctx.max_output_bytes
            },
            None => ctx.max_output_bytes,
        };
        Ok(ReadPlan { path, cap })
    }

    /// The answer with the text of a file.
    pub open spec fn is_answer(r: ToolResult, path: Seq<char>, text: Seq<char>, truncated: bool) -> bool {
        &&& r.ok
        &&& r.content@ == JsonView::Object(
            seq![
                ("format"@, JsonView::Text("line_hash_prefix"@)),
                ("path"@, JsonView::Text(path)),
                (
                    "summary"@,
                    JsonView::Text(
                        if truncated {
                            "read file (truncated)"@
                        } else {
                            "read file"@
                        },
                    ),
                ),
                ("text"@, JsonView::Text(super::lines::tagged(super::lines::split(text)))),
                ("truncated"@, JsonView::Bool(truncated)),
            ],
        )
    }

    /// The answer with the text of a file, every line with its tag.
    pub fn answer_text(path: &str, text: &str, truncated: bool) -> (r: ToolResult)
        ensures
            ReadTool::is_answer(r, path@, text@, truncated),
    {
        let summary: &str = if truncated {
            "read file (truncated)"
        } else {
            "read file"
        };
        let shown: String = super::lines::hashline_text(text);
        let mut fields: Vec<(String, Json)> = Vec::new();
        fields.push(("format".to_owned(), Json::text("line_hash_prefix")));
        fields.push(("path".to_owned(), Json::text(path)));
        fields.push(("summary".to_owned(), Json::text(summary)));
        fields.push(("text".to_owned(), Json::Text(shown)));
        fields.push(("truncated".to_owned(), Json::Bool(truncated)));
        proof {
            crate::tools::lemma_object_view(fields@);
            assert(crate::tools::object_view(fields@) =~= seq![
                ("format"@, JsonView::Text("line_hash_prefix"@)),
                ("path"@, JsonView::Text(path@)),
                ("summary"@, JsonView::Text(summary@)),
                ("text"@, JsonView::Text(super::lines::tagged(super::lines::split(text@)))),
                ("truncated"@, JsonView::Bool(truncated)),
            ]);
        }
        ToolResult::ok(Json::Object(fields))
    }

    /// The answer to a call from the bytes that were read: one more than the plan's limit, where the
    /// file holds more.
    pub fn answer(&self, plan: &ReadPlan, bytes: &[u8]) -> (r: ToolResult)
        ensures
            ReadTool::is_answer(
                r,
                plan.path@,
                lossy_text(head(bytes@, plan.cap as int)),
                bytes@.len() > plan.cap,
            ),
    {
        let text: String = cap_text(bytes, plan.cap);
        ReadTool::answer_text(plan.path.as_str(), text.as_str(), bytes.len() > plan.cap)
    }
}

/// What a `list` call is to list.
#[derive(Debug, PartialEq, Eq)]
pub struct ListPlan {
    /// The directory.
    pub path: String,
    /// Whether to go down into it.
    pub recursive: bool,
}

/// An entry of a listing as it stands in an answer.
pub open spec fn entry_json(e: (Seq<char>, bool)) -> JsonView {
    let kind = if e.1 {
        "dir"@
    } else {
        "file"@
    };
    JsonView::Object(seq![("kind"@, JsonView::Text(kind)), ("path"@, JsonView::Text(e.0))])
}

impl ListTool {
    /// The permission that a call needs.
    pub fn permission(&self, args: &Json, ctx: &ToolCtx) -> (r: Permission)
        ensures
            is_request(
                r,
                "list"@,
                path_or_cwd(args@, *ctx, "path"@),
                PermissionAction::Allow,
                "list directory"@,
            ),
    {
        request(
            "list",
            resolve_arg_path_or_cwd(args, ctx, "path"),
            PermissionAction::Allow,
            "list directory",
        )
    }

    /// What to list, or the answer that refuses the call.
    pub fn plan(&self, args: &Json, ctx: &ToolCtx) -> (r: Result<ListPlan, ToolResult>)
        ensures
            ({
                let full = path_or_cwd(args@, *ctx, "path"@);
                if !super::paths::lies_in_any(full, ctx.readable_roots@) {
                    r matches Err(e) && e.is_error("path is outside readable roots"@)
                } else {
                    &&& r is Ok
                    &&& r->Ok_0.path@ == full
                    &&& r->Ok_0.recursive == (args@.bool_field("recursive"@) == Some(true))
                }
            }),
    {
        let path: String = resolve_arg_path_or_cwd(args, ctx, "path");
        if !super::paths::inside_any(path.as_str(), ctx.readable_roots.as_slice()) {
            return Err(ToolResult::error("path is outside readable roots"));
        }
        let recursive: bool = match args.get_bool("recursive") {
            Some(b) => b,
            None => false,
        };
        Ok(ListPlan { path, recursive })
    }

    /// The answer to a call from the directory's entries.
    pub fn answer(&self, plan: &ListPlan, tree: &super::search::DirTree, ctx: &ToolCtx) -> (r:
        ToolResult)
        ensures
            r.ok,
            r.content@ == JsonView::Object(
                seq![
                    (
                        "entries"@,
                        JsonView::Array(
                            super::search::at_most(
                                super::search::entries_below(tree.children@, plan.recursive),
                                ctx.max_output_bytes as int / 64,
                            ).map_values(|e: (Seq<char>, bool)| entry_json(e)),
                        ),
                    ),
                    ("path"@, JsonView::Text(plan.path@)),
                    ("summary"@, JsonView::Text("listed directory"@)),
                ],
            ),
    {
        let entries: Vec<ListedEntry> = super::search::collect_entries(
            tree,
            plan.recursive,
            ctx.max_output_bytes,
        );
        let ghost rows = entries@.map_values(|e: ListedEntry| super::search::entry_view(e));
        let mut list: Vec<Json> = Vec::new();
        let mut i: usize = 0;
        while i < entries.len()
            invariant
                i <= entries.len(),
                list@.len() == i,
                rows == entries@.map_values(|e: ListedEntry| super::search::entry_view(e)),
                forall|k: int| 0 <= k < i ==> (#[trigger] list@[k])@ == entry_json(rows[k]),
            decreases entries.len() - i,
        {
            let kind: &str = if entries[i].is_dir {
                "dir"
            } else {
                "file"
            };
            let mut fields: Vec<(String, Json)> = Vec::new();
            fields.push(("kind".to_owned(), Json::text(kind)));
            fields.push(("path".to_owned(), Json::text(entries[i].path.as_str())));
            proof {
                assert(rows[i as int] == super::search::entry_view(entries@[i as int]));
                crate::tools::lemma_object_view(fields@);
                assert(crate::tools::object_view(fields@) =~= seq![
                    ("kind"@, JsonView::Text(kind@)),
                    ("path"@, JsonView::Text(entries@[i as int].path@)),
                ]);
            }
            list.push(Json::Object(fields));
            i = i + 1;
        }
        let ghost shown = rows.map_values(|e: (Seq<char>, bool)| entry_json(e));
        proof {
            crate::tools::lemma_array_view(list@);
            assert(crate::tools::array_view(list@) =~= shown);
        }
        let mut fields: Vec<(String, Json)> = Vec::new();
        fields.push(("entries".to_owned(), Json::Array(list)));
        fields.push(("path".to_owned(), Json::text(plan.path.as_str())));
        fields.push(("summary".to_owned(), Json::text("listed directory")));
        proof {
            crate::tools::lemma_object_view(fields@);
            assert(crate::tools::object_view(fields@) =~= seq![
                ("entries"@, JsonView::Array(shown)),
                ("path"@, JsonView::Text(plan.path@)),
                ("summary"@, JsonView::Text("listed directory"@)),
            ]);
        }
        ToolResult::ok(Json::Object(fields))
    }
}

/// What a `glob` or `grep` call is to search.
#[derive(Debug, PartialEq, Eq)]
pub struct SearchPlan {
    /// The pattern.
    pub pattern: String,
    /// Where to search.
    pub root: String,
    /// Whether case matters.
    pub case_sensitive: bool,
}

/// The plan of a search, or why the call is refused.
pub open spec fn is_search_plan(
    r: Result<SearchPlan, ToolResult>,
    args: JsonView,
    ctx: ToolCtx,
) -> bool {
    match args.text_field("pattern"@) {
        None => r matches Err(e) && e.is_error("missing pattern"@),
        Some(p) => {
            let full = path_or_cwd(args, ctx, "path"@);
            if !super::paths::lies_in_any(full, ctx.readable_roots@) {
                r matches Err(e) && e.is_error("path is outside readable roots"@)
            } else {
                &&& r is Ok
                &&& r->Ok_0.pattern@ == p
                &&& r->Ok_0.root@ == full
                &&& r->Ok_0.case_sensitive == (args.bool_field("case_sensitive"@) != Some(false))
            }
        },
    }
}

fn search_plan(args: &Json, ctx: &ToolCtx) -> (r: Result<SearchPlan, ToolResult>)
    ensures
        is_search_plan(r, args@, *ctx),
{
    let pattern: String = match args.get_text("pattern") {
        Some(p) => p,
        None => {
            return Err(ToolResult::error("missing pattern"));
        },
    };
    let root: String = resolve_arg_path_or_cwd(args, ctx, "path");
    if !super::paths::inside_any(root.as_str(), ctx.readable_roots.as_slice()) {
        return Err(ToolResult::error("path is outside readable roots"));
    }
    let case_sensitive: bool = match args.get_bool("case_sensitive") {
        Some(b) => b,
        None => true,
    };
    Ok(SearchPlan { pattern, root, case_sensitive })
}

/// The paths that a pattern matches.
pub open spec fn globbed(paths: Seq<Seq<char>>, pattern: Seq<char>) -> Seq<Seq<char>> {
    paths.filter(
        |p: Seq<char>|
            super::search::globs(
                vstd::utf8::encode_utf8(pattern),
                vstd::utf8::encode_utf8(p),
            ),
    )
}

impl GlobTool {
    /// The permission that a call needs.
    pub fn permission(&self, args: &Json) -> (r: Permission)
        ensures
            is_request(
                r,
                "glob"@,
                (match args@.text_field("pattern"@) {
                    Some(t) => t,
                    None => Seq::empty(),
                }),
                PermissionAction::Allow,
                "search files"@,
            ),
    {
        request("glob", text_or_empty(args, "pattern"), PermissionAction::Allow, "search files")
    }

    /// What to search, or the answer that refuses the call.
    pub fn plan(&self, args: &Json, ctx: &ToolCtx) -> (r: Result<SearchPlan, ToolResult>)
        ensures
            is_search_plan(r, args@, *ctx),
    {
        search_plan(args, ctx)
    }

    /// The answer to a call: the paths below the root that the pattern matches.
    pub fn answer(&self, plan: &SearchPlan, tree: &super::search::DirTree, ctx: &ToolCtx) -> (r:
        ToolResult)
        ensures
            r.ok,
            r.content@ == JsonView::Object(
                seq![
                    (
                        "matches"@,
                        JsonView::Array(
                            globbed(
                                super::search::walk_dir(
                                    *tree,
                                    0,
                                    super::search::walk_limit(ctx.max_output_bytes as int),
                                ).0,
                                plan.pattern@,
                            ).map_values(|p: Seq<char>| JsonView::Text(p)),
                        ),
                    ),
                    ("summary"@, JsonView::Text("matched files"@)),
                ],
            ),
    {
        let paths: Vec<String> = super::search::walk(tree, ctx.max_output_bytes);
        let ghost all = crate::text::views(paths@);
        let ghost keep = |p: Seq<char>|
            super::search::globs(
                vstd::utf8::encode_utf8(plan.pattern@),
                vstd::utf8::encode_utf8(p),
            );
        let mut list: Vec<Json> = Vec::new();
        let mut i: usize = 0;
        proof {
            reveal(Seq::filter);
            assert(all.take(0) =~= Seq::empty());
        }
        while i < paths.len()
            invariant
                i <= paths.len(),
                all == crate::text::views(paths@),
                keep == (|p: Seq<char>|
                    super::search::globs(
                        vstd::utf8::encode_utf8(plan.pattern@),
                        vstd::utf8::encode_utf8(p),
                    )),
                list@.len() == all.take(i as int).filter(keep).len(),
                forall|k: int|
                    0 <= k < list@.len() ==> (#[trigger] list@[k])@ == JsonView::Text(
                        all.take(i as int).filter(keep)[k],
                    ),
            decreases paths.len() - i,
        {
            proof {
                reveal(Seq::filter);
                let next = all.take(i + 1);
                assert(next.drop_last() =~= all.take(i as int));
                assert(next.last() == paths@[i as int]@);
            }
            if super::search::glob_match(plan.pattern.as_str(), paths[i].as_str()) {
                list.push(Json::text(paths[i].as_str()));
            }
            i = i + 1;
        }
        let ghost shown = globbed(all, plan.pattern@).map_values(|p: Seq<char>| JsonView::Text(p));
        proof {
            assert(all.take(i as int) =~= all);
            crate::tools::lemma_array_view(list@);
            assert(crate::tools::array_view(list@) =~= shown);
        }
        let mut fields: Vec<(String, Json)> = Vec::new();
        fields.push(("matches".to_owned(), Json::Array(list)));
        fields.push(("summary".to_owned(), Json::text("matched files")));
        proof {
            crate::tools::lemma_object_view(fields@);
            assert(crate::tools::object_view(fields@) =~= seq![
                ("matches"@, JsonView::Array(shown)),
                ("summary"@, JsonView::Text("matched files"@)),
            ]);
        }
        ToolResult::ok(Json::Object(fields))
    }
}

/// A match as it stands in an answer.
pub open spec fn match_json(m: super::search::MatchView) -> JsonView {
    JsonView::Object(
        seq![
            ("line"@, JsonView::Number(JsonNumber::Unsigned(m.line as u64))),
            ("path"@, JsonView::Text(m.path)),
            ("tag"@, JsonView::Text(m.tag)),
            ("text"@, JsonView::Text(m.text)),
        ],
    )
}

impl GrepTool {
    /// The permission that a call needs.
    pub fn permission(&self, args: &Json) -> (r: Permission)
        ensures
            is_request(
                r,
                "grep"@,
                (match args@.text_field("pattern"@) {
                    Some(t) => t,
                    None => Seq::empty(),
                }),
                PermissionAction::Allow,
                "search text"@,
            ),
    {
        request("grep", text_or_empty(args, "pattern"), PermissionAction::Allow, "search text")
    }

    /// What to search, or the answer that refuses the call.
    pub fn plan(&self, args: &Json, ctx: &ToolCtx) -> (r: Result<SearchPlan, ToolResult>)
        ensures
            is_search_plan(r, args@, *ctx),
    {
        search_plan(args, ctx)
    }

    /// Whether a file is to be opened at all.
    pub fn wants(&self, path: &str, matches: &[GrepMatch]) -> (r: bool)
        ensures
            r == (matches@.len() < super::search::MAX_MATCHES && !super::search::looks_binary(
                path@,
            )),
    {
        matches.len() < super::search::MAX_MATCHES && !super::search::is_probably_binary(path)
    }

    /// Search one file that could be read and add what is found to the matches so far.
    pub fn search_file(
        &self,
        plan: &SearchPlan,
        path: &str,
        text: &str,
        matches: &mut Vec<GrepMatch>,
    )
        requires
            old(matches)@.len() <= super::search::MAX_MATCHES,
        ensures
            crate::text::views(final(matches)@) == super::search::capped(
                crate::text::views(old(matches)@) + super::search::found(
                    path@,
                    crate::text::lines_of(text@),
                    crate::text::lines_of(text@).map_values(
                        |l: Seq<char>| super::search::searched_form(l, plan.case_sensitive),
                    ),
                    super::search::searched_form(plan.pattern@, plan.case_sensitive),
                    crate::text::lines_of(text@).len() as int,
                ),
            ),
    {
        super::search::search_text(
            path,
            text,
            plan.pattern.as_str(),
            plan.case_sensitive,
            matches,
        );
    }

    /// Go on to one more file, with its text where it was to be opened and could be read: the matches
    /// of the files so far become those of the files with it.
    pub fn search_next(
        &self,
        plan: &SearchPlan,
        path: &str,
        text: Option<&str>,
        matches: &mut Vec<GrepMatch>,
    )
        requires
            old(matches)@.len() <= super::search::MAX_MATCHES,
        ensures
            final(matches)@.len() <= super::search::MAX_MATCHES,
            crate::text::views(final(matches)@) == super::search::searched_more(
                crate::text::views(old(matches)@),
                file_view(path, text),
                plan.pattern@,
                plan.case_sensitive,
            ),
            forall|files: Seq<super::search::FileView>|
                crate::text::views(old(matches)@) == #[trigger] super::search::searched(
                    files,
                    plan.pattern@,
                    plan.case_sensitive,
                ) ==> crate::text::views(final(matches)@) == super::search::searched(
                    files.push(file_view(path, text)),
                    plan.pattern@,
                    plan.case_sensitive,
                ),
    {
        let ghost before = crate::text::views(matches@);
        let ghost file = file_view(path, text);
        if self.wants(path, matches.as_slice()) {
            if let Some(t) = text {
                self.search_file(plan, path, t, matches);
            } else {
                assert(before + Seq::<super::search::MatchView>::empty() =~= before);
            }
        } else {
            proof {
                super::search::law_unwanted_file_adds_nothing(
                    before,
                    file,
                    plan.pattern@,
                    plan.case_sensitive,
                );
            }
        }
        proof {
            assert(crate::text::views(matches@).len() == matches@.len());
            assert forall|files: Seq<super::search::FileView>|
                before == #[trigger] super::search::searched(
                    files,
                    plan.pattern@,
                    plan.case_sensitive,
                ) implies crate::text::views(matches@) == super::search::searched(
                files.push(file),
                plan.pattern@,
                plan.case_sensitive,
            ) by {
                super::search::lemma_searched_push(
                    files,
                    file,
                    plan.pattern@,
                    plan.case_sensitive,
                );
            }
        }
    }

    /// The answer to a call from what was found.
    pub fn answer(&self, matches: &[GrepMatch]) -> (r: ToolResult)
        ensures
            r.ok,
            r.content@ == JsonView::Object(
                seq![
                    (
                        "matches"@,
                        JsonView::Array(
                            crate::text::views(matches@).map_values(
                                |m: super::search::MatchView| match_json(m),
                            ),
                        ),
                    ),
                    ("summary"@, JsonView::Text("searched text"@)),
                ],
            ),
    {
        let mut list: Vec<Json> = Vec::new();
        let mut i: usize = 0;
        while i < matches.len()
            invariant
                i <= matches.len(),
                list@.len() == i,
                forall|k: int| 0 <= k < i ==> (#[trigger] list@[k])@ == match_json(matches@[k]@),
            decreases matches.len() - i,
        {
            let m: &GrepMatch = &matches[i];
            let mut fields: Vec<(String, Json)> = Vec::new();
            fields.push(("line".to_owned(), Json::Number(JsonNumber::Unsigned(m.line as u64))));
            fields.push(("path".to_owned(), Json::text(m.path.as_str())));
            fields.push(("tag".to_owned(), Json::text(m.tag.as_str())));
            fields.push(("text".to_owned(), Json::text(m.text.as_str())));
            proof {
                crate::tools::lemma_object_view(fields@);
                assert(crate::tools::object_view(fields@) =~= seq![
                    ("line"@, JsonView::Number(JsonNumber::Unsigned(m@.line as u64))),
                    ("path"@, JsonView::Text(m@.path)),
                    ("tag"@, JsonView::Text(m@.tag)),
                    ("text"@, JsonView::Text(m@.text)),
                ]);
            }
            list.push(Json::Object(fields));
            i = i + 1;
        }
        let ghost shown = crate::text::views(matches@).map_values(
            |m: super::search::MatchView| match_json(m),
        );
        proof {
            crate::tools::lemma_array_view(list@);
            assert(crate::tools::array_view(list@) =~= shown);
        }
        let mut fields: Vec<(String, Json)> = Vec::new();
        fields.push(("matches".to_owned(), Json::Array(list)));
        fields.push(("summary".to_owned(), Json::text("searched text")));
        proof {
            crate::tools::lemma_object_view(fields@);
            assert(crate::tools::object_view(fields@) =~= seq![
                ("matches"@, JsonView::Array(shown)),
                ("summary"@, JsonView::Text("searched text"@)),
            ]);
        }
        ToolResult::ok(Json::Object(fields))
    }
}

/// The answer of a tool that changed a file.
pub open spec fn is_done(r: ToolResult, path: Seq<char>, summary: Seq<char>) -> bool {
    &&& r.ok
    &&& r.content@ == JsonView::Object(
        seq![("path"@, JsonView::Text(path)), ("summary"@, JsonView::Text(summary))],
    )
}

fn done(path: &str, summary: &str) -> (r: ToolResult)
    ensures
        is_done(r, path@, summary@),
{
    let mut fields: Vec<(String, Json)> = Vec::new();
    fields.push(("path".to_owned(), Json::text(path)));
    fields.push(("summary".to_owned(), Json::text(summary)));
    proof {
        crate::tools::lemma_object_view(fields@);
        assert(crate::tools::object_view(fields@) =~= seq![
            ("path"@, JsonView::Text(path@)),
            ("summary"@, JsonView::Text(summary@)),
        ]);
    }
    ToolResult::ok(Json::Object(fields))
}

/// What a `write` call is to write.
#[derive(Debug, PartialEq, Eq)]
pub struct WritePlan {
    /// The file.
    pub path: String,
    /// Its new content.
    pub content: String,
}

impl WriteTool {
    /// The permission that a call needs.
    pub fn permission(&self, args: &Json, ctx: &ToolCtx) -> (r: Permission)
        ensures
            is_request(
                r,
                "edit"@,
                path_argument(args@, *ctx, "path"@),
                PermissionAction::Ask,
                "write file"@,
            ),
    {
        request(
            "edit",
            resolve_arg_path(args, ctx, "path"),
            PermissionAction::Ask,
            "write file",
        )
    }

    /// What to write, or the answer that refuses the call.
    pub fn plan(&self, args: &Json, ctx: &ToolCtx) -> (r: Result<WritePlan, ToolResult>)
        ensures
            match (args@.text_field("path"@), args@.text_field("content"@)) {
                (None, _) => r matches Err(e) && e.is_error("missing path"@),
                (Some(_), None) => r matches Err(e) && e.is_error("missing content"@),
                (Some(p), Some(content)) => {
                    let full = super::paths::resolved(ctx.cwd@, p);
                    if !super::paths::lies_in_any(full, ctx.writable_roots@) {
                        r matches Err(e) && e.is_error("path is outside writable roots"@)
                    } else {
                        r is Ok && r->Ok_0.path@ == full && r->Ok_0.content@ == content
                    }
                },
            },
    {
        let path: String = match args.get_text("path") {
            Some(p) => p,
            None => {
                return Err(ToolResult::error("missing path"));
            },
        };
        let content: String = match args.get_text("content") {
            Some(c) => c,
            None => {
                return Err(ToolResult::error("missing content"));
            },
        };
        let full: String = super::paths::resolve_path(ctx, path.as_str());
        if !super::paths::inside_any(full.as_str(), ctx.writable_roots.as_slice()) {
            return Err(ToolResult::error("path is outside writable roots"));
        }
        Ok(WritePlan { path: full, content })
    }

    /// The answer to a call whose file was written.
    pub fn answer(&self, plan: &WritePlan) -> (r: ToolResult)
        ensures
            is_done(r, plan.path@, "wrote file"@),
    {
        done(plan.path.as_str(), "wrote file")
    }
}

/// What an `edit` call is to edit.
#[derive(Debug, PartialEq, Eq)]
pub struct EditPlan {
    /// The file.
    pub path: String,
    /// The new text.
    pub new: String,
}

/// A text after the edit that the arguments ask for, or why it cannot be made. A tag to insert
/// behind goes before a tag to replace, and that before an exact text.
pub open spec fn edited(args: JsonView, text: Seq<char>, new: Seq<char>) -> Result<
    Seq<char>,
    Seq<char>,
> {
    let lines = super::lines::split(text);
    match args.text_field("after"@) {
        Some(after) => super::edit::inserted_after(lines, after, new),
        None => match args.text_field("start"@) {
            Some(start) => {
                let end = match args.text_field("end"@) {
                    Some(e) => e,
                    None => start,
                };
                super::edit::range_replaced(lines, start, end, new)
            },
            None => match args.text_field("old"@) {
                Some(old_text) => if !crate::text::occurs(text, old_text) {
                    Err("old text was not found"@)
                } else if args.bool_field("replace_all"@) == Some(true) {
                    Ok(super::edit::all_replaced(text, old_text, new))
                } else {
                    Ok(super::edit::once_replaced(text, old_text, new))
                },
                None => Err("provide start/end, after, or legacy old text"@),
            },
        },
    }
}

impl EditTool {
    /// The permission that a call needs.
    pub fn permission(&self, args: &Json, ctx: &ToolCtx) -> (r: Permission)
        ensures
            is_request(
                r,
                "edit"@,
                path_argument(args@, *ctx, "path"@),
                PermissionAction::Ask,
                "edit file"@,
            ),
    {
        request(
            "edit",
            resolve_arg_path(args, ctx, "path"),
            PermissionAction::Ask,
            "edit file",
        )
    }

    /// What to edit, or the answer that refuses the call.
    pub fn plan(&self, args: &Json, ctx: &ToolCtx) -> (r: Result<EditPlan, ToolResult>)
        ensures
            match (args@.text_field("path"@), args@.text_field("new"@)) {
                (None, _) => r matches Err(e) && e.is_error("missing path"@),
                (Some(_), None) => r matches Err(e) && e.is_error("missing new"@),
                (Some(p), Some(new)) => {
                    let full = super::paths::resolved(ctx.cwd@, p);
                    if !super::paths::lies_in_any(full, ctx.writable_roots@)
                        || !super::paths::lies_in_any(full, ctx.readable_roots@) {
                        r matches Err(e) && e.is_error("path is outside editable roots"@)
                    } else {
                        r is Ok && r->Ok_0.path@ == full && r->Ok_0.new@ == new
                    }
                },
            },
    {
        let path: String = match args.get_text("path") {
            Some(p) => p,
            None => {
                return Err(ToolResult::error("missing path"));
            },
        };
        let new: String = match args.get_text("new") {
            Some(c) => c,
            None => {
                return Err(ToolResult::error("missing new"));
            },
        };
        let full: String = super::paths::resolve_path(ctx, path.as_str());
        if !super::paths::inside_any(full.as_str(), ctx.writable_roots.as_slice())
            || !super::paths::inside_any(full.as_str(), ctx.readable_roots.as_slice()) {
            return Err(ToolResult::error("path is outside editable roots"));
        }
        Ok(EditPlan { path: full, new })
    }

    /// The file's new text from its present one, or the answer that refuses the call.
    pub fn apply(&self, args: &Json, plan: &EditPlan, text: &str) -> (r: Result<
        String,
        ToolResult,
    >)
        ensures
            match edited(args@, text@, plan.new@) {
                Ok(out) => r matches Ok(s) && s@ == out,
                Err(why) => r matches Err(e) && e.is_error(why),
            },
    {
        let new: &str = plan.new.as_str();
        if let Some(after) = args.get_text("after") {
            return match super::edit::insert_after_tag(text, after.as_str(), new) {
                Ok(s) => Ok(s),
                Err(why) => Err(ToolResult::error(why.as_str())),
            };
        }
        if let Some(start) = args.get_text("start") {
            let end: String = match args.get_text("end") {
                Some(e) => e,
                None => start.clone(),
            };
            return match super::edit::replace_tag_range(text, start.as_str(), end.as_str(), new) {
                Ok(s) => Ok(s),
                Err(why) => Err(ToolResult::error(why.as_str())),
            };
        }
        if let Some(old_text) = args.get_text("old") {
            if !crate::text::contains(text, old_text.as_str()) {
                return Err(ToolResult::error("old text was not found"));
            }
            let every: bool = match args.get_bool("replace_all") {
                Some(b) => b,
                None => false,
            };
            return if every {
                Ok(super::edit::replace_all(text, old_text.as_str(), new))
            } else {
                Ok(super::edit::replace_first(text, old_text.as_str(), new))
            };
        }
        Err(ToolResult::error("provide start/end, after, or legacy old text"))
    }

    /// The answer to a call whose file was edited.
    pub fn answer(&self, plan: &EditPlan) -> (r: ToolResult)
        ensures
            is_done(r, plan.path@, "edited file"@),
    {
        done(plan.path.as_str(), "edited file")
    }
}

/// What a command does by default: refused where it reaches out to a network that is off, allowed
/// where it only reads, else asked for.
pub open spec fn command_action(command: Seq<char>, network: bool) -> PermissionAction {
    if !network && super::search::uses_network(command) {
        PermissionAction::Deny
    } else if super::search::is_reading_word(super::search::leading_word(command)) {
        PermissionAction::Allow
    } else {
        PermissionAction::Ask
    }
}

/// The exit code of a command as it stands in an answer.
pub open spec fn code_json(code: Option<i32>) -> JsonView {
    match code {
        None => JsonView::Null,
        Some(c) => if c >= 0 {
            JsonView::Number(JsonNumber::Unsigned(c as u64))
        } else {
            JsonView::Number(JsonNumber::Negative(c as i64))
        },
    }
}

impl BashTool {
    /// The permission that a call needs.
    pub fn permission(&self, args: &Json, ctx: &ToolCtx) -> (r: Permission)
        ensures
            ({
                let command = match args@.text_field("command"@) {
                    Some(t) => t,
                    None => Seq::empty(),
                };
                is_request(
                    r,
                    "bash"@,
                    command,
                    command_action(command, ctx.network),
                    "run bash command"@,
                )
            }),
    {
        let command: String = text_or_empty(args, "command");
        let action: PermissionAction = if !ctx.network
            && super::search::looks_like_network_command(command.as_str()) {
            PermissionAction::Deny
        } else if super::search::looks_read_only(command.as_str()) {
            PermissionAction::Allow
        } else {
            PermissionAction::Ask
        };
        request("bash", command, action, "run bash command")
    }

    /// The command to run, or the answer that refuses the call.
    pub fn plan(&self, args: &Json, ctx: &ToolCtx) -> (r: Result<String, ToolResult>)
        ensures
            match args@.text_field("command"@) {
                None => r matches Err(e) && e.is_error("missing command"@),
                Some(c) => if !ctx.network && super::search::uses_network(c) {
                    r matches Err(e) && e.is_error("network commands are disabled"@)
                } else {
                    r matches Ok(s) && s@ == c
                },
            },
    {
        let command: String = match args.get_text("command") {
            Some(c) => c,
            None => {
                return Err(ToolResult::error("missing command"));
            },
        };
        if !ctx.network && super::search::looks_like_network_command(command.as_str()) {
            return Err(ToolResult::error("network commands are disabled"));
        }
        Ok(command)
    }

    /// The answer with what a command wrote.
    pub open spec fn is_answer(
        r: ToolResult,
        code: Option<i32>,
        stdout: Seq<char>,
        stderr: Seq<char>,
    ) -> bool {
        &&& r.ok
        &&& r.content@ == JsonView::Object(
            seq![
                ("exit_code"@, code_json(code)),
                ("stderr"@, JsonView::Text(stderr)),
                ("stdout"@, JsonView::Text(stdout)),
                (
                    "summary"@,
                    JsonView::Text(
                        if code == Some(0i32) {
                            "bash completed"@
                        } else {
                            "bash exited non-zero"@
                        },
                    ),
                ),
            ],
        )
    }

    /// The answer with what a command wrote.
    pub fn answer_text(code: Option<i32>, stdout: String, stderr: String) -> (r: ToolResult)
        ensures
            BashTool::is_answer(r, code, stdout@, stderr@),
    {
        let ghost so = stdout@;
        let ghost se = stderr@;
        let shown: Json = match code {
            None => Json::Null,
            Some(c) => if c >= 0 {
                Json::Number(JsonNumber::Unsigned(c as u64))
            } else {
                Json::Number(JsonNumber::Negative(c as i64))
            },
        };
        let summary: &str = match code {
            Some(c) => if c == 0 {
                "bash completed"
            } else {
                "bash exited non-zero"
            },
            None => "bash exited non-zero",
        };
        let mut fields: Vec<(String, Json)> = Vec::new();
        fields.push(("exit_code".to_owned(), shown));
        fields.push(("stderr".to_owned(), Json::Text(stderr)));
        fields.push(("stdout".to_owned(), Json::Text(stdout)));
        fields.push(("summary".to_owned(), Json::text(summary)));
        proof {
            crate::tools::lemma_object_view(fields@);
            assert(crate::tools::object_view(fields@) =~= seq![
                ("exit_code"@, code_json(code)),
                ("stderr"@, JsonView::Text(se)),
                ("stdout"@, JsonView::Text(so)),
                ("summary"@, JsonView::Text(summary@)),
            ]);
        }
        ToolResult::ok(Json::Object(fields))
    }

    /// The answer to a call from how the command ended and what it wrote.
    pub fn answer(&self, code: Option<i32>, stdout: &[u8], stderr: &[u8], ctx: &ToolCtx) -> (r:
        ToolResult)
        ensures
            BashTool::is_answer(
                r,
                code,
                lossy_text(head(stdout@, ctx.max_output_bytes as int)),
                lossy_text(head(stderr@, ctx.max_output_bytes as int)),
            ),
    {
        BashTool::answer_text(
            code,
            cap_text(stdout, ctx.max_output_bytes),
            cap_text(stderr, ctx.max_output_bytes),
        )
    }
}

/// Every name that a tool requires is one of its properties, every property says what it is and of which
/// type, and the tools differ in their names.
pub proof fn law_schemas_are_sound(s: ToolSchema)
    requires
        is_builtin_schema(s),
    ensures
        is_builtin(s.name@),
        s.parameters@.text_field("type"@) == Some("object"@),
        s.parameters@.field("properties"@) is Some,
        s.name@ == "read"@ ==> s.parameters@.field("required"@) == Some(
            JsonView::Array(seq![JsonView::Text("path"@)]),
        ),
        s.name@ == "list"@ ==> s.parameters@.field("required"@) is None,
        s.name@ == "glob"@ || s.name@ == "grep"@ ==> s.parameters@.field("required"@) == Some(
            JsonView::Array(seq![JsonView::Text("pattern"@)]),
        ),
        s.name@ == "write"@ ==> s.parameters@.field("required"@) == Some(
            JsonView::Array(seq![JsonView::Text("path"@), JsonView::Text("content"@)]),
        ),
        s.name@ == "edit"@ ==> s.parameters@.field("required"@) == Some(
            JsonView::Array(seq![JsonView::Text("path"@), JsonView::Text("new"@)]),
        ),
        s.name@ == "bash"@ ==> s.parameters@.field("required"@) == Some(
            JsonView::Array(seq![JsonView::Text("command"@)]),
        ),
{
    lemma_names_differ();
    reveal_with_fuel(crate::tools::field_at, 4);
    reveal_strlit("properties");
    reveal_strlit("required");
    reveal_strlit("type");
    assert("properties"@.len() == 10 && "required"@.len() == 8 && "type"@.len() == 4);
    let fields = s.parameters@->Object_0;
    assert(fields.drop_first().drop_first() =~= fields.skip(2));
    assert(seq!["path"@].map_values(|n: Seq<char>| JsonView::Text(n)) =~= seq![
        JsonView::Text("path"@),
    ]);
    assert(seq!["pattern"@].map_values(|n: Seq<char>| JsonView::Text(n)) =~= seq![
        JsonView::Text("pattern"@),
    ]);
    assert(seq!["command"@].map_values(|n: Seq<char>| JsonView::Text(n)) =~= seq![
        JsonView::Text("command"@),
    ]);
    assert(seq!["path"@, "content"@].map_values(|n: Seq<char>| JsonView::Text(n)) =~= seq![
        JsonView::Text("path"@),
        JsonView::Text("content"@),
    ]);
    assert(seq!["path"@, "new"@].map_values(|n: Seq<char>| JsonView::Text(n)) =~= seq![
        JsonView::Text("path"@),
        JsonView::Text("new"@),
    ]);
}

proof fn lemma_names_differ()
    ensures
        "read"@ != "list"@,
        "read"@ != "glob"@,
        "read"@ != "grep"@,
        "read"@ != "write"@,
        "read"@ != "edit"@,
        "read"@ != "bash"@,
        "list"@ != "glob"@,
        "list"@ != "grep"@,
        "list"@ != "write"@,
        "list"@ != "edit"@,
        "list"@ != "bash"@,
        "glob"@ != "grep"@,
        "glob"@ != "write"@,
        "glob"@ != "edit"@,
        "glob"@ != "bash"@,
        "grep"@ != "write"@,
        "grep"@ != "edit"@,
        "grep"@ != "bash"@,
        "write"@ != "edit"@,
        "write"@ != "bash"@,
        "edit"@ != "bash"@,
{
    reveal_strlit("read");
    reveal_strlit("list");
    reveal_strlit("glob");
    reveal_strlit("grep");
    reveal_strlit("write");
    reveal_strlit("edit");
    reveal_strlit("bash");
    assert("read"@[0] == 'r' && "list"@[0] == 'l' && "glob"@[0] == 'g' && "grep"@[0] == 'g'
        && "write"@[0] == 'w' && "edit"@[0] == 'e' && "bash"@[0] == 'b');
    assert("glob"@[1] == 'l' && "grep"@[1] == 'r');
}

/// A property stands in a schema under its name, with its type and its description.
pub proof fn law_property_in_a_schema(p: Property)
    ensures
        property_view(p).0 == p.name@,
        property_view(p).1.text_field("type"@) == Some(p.kind@),
        property_view(p).1.text_field("description"@) == Some(p.description@),
{
    reveal_with_fuel(crate::tools::field_at, 3);
    reveal_strlit("description");
    reveal_strlit("type");
    assert("description"@.len() == 11 && "type"@.len() == 4);
    let fields = property_view(p).1->Object_0;
    assert(fields.drop_first()[0] == fields[1]);
}

/// The tools that are offered: all seven where none is named, else those named that there are.
pub proof fn law_which_tools_are_offered(names: Seq<Seq<char>>, name: Seq<char>)
    ensures
        is_builtin(name) == set![
            "bash"@,
            "edit"@,
            "glob"@,
            "grep"@,
            "list"@,
            "read"@,
            "write"@,
        ].contains(name),
        is_builtin(name) ==> is_selected(Seq::empty(), name),
        names.len() > 0 ==> is_selected(names, name) == (is_builtin(name) && exists|i: int|
            0 <= i < names.len() && #[trigger] names[i] == name),
{
    let all = standard_names();
    if is_builtin(name) {
        assert(all[0] == "read"@ && all[1] == "list"@ && all[2] == "glob"@ && all[3] == "grep"@
            && all[4] == "write"@ && all[5] == "edit"@ && all[6] == "bash"@);
        assert(exists|i: int| 0 <= i < all.len() && all[i] == name);
    }
}

/// A request names its subject, once alone and once behind what is to be done.
pub proof fn law_request_names_its_subject(
    p: Permission,
    key: Seq<char>,
    subject: Seq<char>,
    action: PermissionAction,
    what: Seq<char>,
)
    requires
        is_request(p, key, subject, action, what),
    ensures
        p.key@ == key,
        p.subject@ == subject,
        p.detail@ == subject,
        p.default_action == action,
        p.summary@.take(what.len() as int) == what,
        p.summary@.skip(what.len() as int) == seq![':', ' '] + subject,
{
    reveal_strlit(": ");
    assert(p.summary@.take(what.len() as int) =~= what);
    assert(p.summary@.skip(what.len() as int) =~= seq![':', ' '] + subject);
}

/// The path in an argument is seen from the working directory; where there is none it is the empty text,
/// or the working directory where that will do.
pub proof fn law_path_in_an_argument(args: JsonView, ctx: ToolCtx, key: Seq<char>)
    ensures
        args.text_field(key) matches Some(p) ==> path_argument(args, ctx, key)
            == super::paths::resolved(ctx.cwd@, p) && path_or_cwd(args, ctx, key)
            == super::paths::resolved(ctx.cwd@, p),
        args.text_field(key) is None ==> path_argument(args, ctx, key).len() == 0 && path_or_cwd(
            args,
            ctx,
            key,
        ) == ctx.cwd@,
{
}

/// What is cut to a size keeps its first bytes, and all of them where they are no more.
pub proof fn law_cut_bytes_keep_the_front(bytes: Seq<u8>, cap: nat, i: int)
    ensures
        bytes.len() <= cap ==> head(bytes, cap as int) == bytes,
        bytes.len() > cap ==> head(bytes, cap as int).len() == cap,
        0 <= i < head(bytes, cap as int).len() ==> head(bytes, cap as int)[i] == bytes[i],
{
}

/// An answer with a file's text says which file, shows its lines with their tags, and says in two ways
/// whether something was cut off.
pub proof fn law_read_answer(r: ToolResult, path: Seq<char>, text: Seq<char>, truncated: bool)
    requires
        ReadTool::is_answer(r, path, text, truncated),
    ensures
        r.ok,
        r.content@.text_field("path"@) == Some(path),
        r.content@.text_field("text"@) == Some(super::lines::tagged(super::lines::split(text))),
        r.content@.bool_field("truncated"@) == Some(truncated),
        truncated ==> r.content@.text_field("summary"@) == Some("read file (truncated)"@),
        !truncated ==> r.content@.text_field("summary"@) == Some("read file"@),
        r.content@.text_field("format"@) == Some("line_hash_prefix"@),
{
    reveal_strlit("format");
    reveal_strlit("path");
    reveal_strlit("summary");
    reveal_strlit("text");
    reveal_strlit("truncated");
    assert("format"@.len() == 6 && "path"@.len() == 4 && "summary"@.len() == 7 && "text"@.len() == 4
        && "truncated"@.len() == 9);
    assert("path"@[0] == 'p' && "text"@[0] == 't');
    let f = r.content@->Object_0;
    lemma_field_of(f, 0, "format"@);
    lemma_field_of(f, 1, "path"@);
    lemma_field_of(f, 2, "summary"@);
    lemma_field_of(f, 3, "text"@);
    lemma_field_of(f, 4, "truncated"@);
}

proof fn lemma_field_of(fields: Seq<(Seq<char>, JsonView)>, i: int, name: Seq<char>)
    requires
        0 <= i < fields.len(),
        fields[i].0 == name,
        forall|j: int| 0 <= j < i ==> (#[trigger] fields[j]).0 != name,
    ensures
        crate::tools::field_at(fields, name) == i,
        JsonView::Object(fields).field(name) == Some(fields[i].1),
    decreases fields.len(),
{
    if i > 0 {
        let rest = fields.drop_first();
        assert forall|j: int| 0 <= j < i - 1 implies (#[trigger] rest[j]).0 != name by {
            assert(rest[j] == fields[j + 1]);
        }
        assert(fields[0].0 != name);
        lemma_field_of(rest, i - 1, name);
    }
}

/// An entry of a listing says its path, and whether it is a file or a directory.
pub proof fn law_entry_in_an_answer(path: Seq<char>, is_dir: bool)
    ensures
        entry_json((path, is_dir)).text_field("path"@) == Some(path),
        is_dir ==> entry_json((path, is_dir)).text_field("kind"@) == Some("dir"@),
        !is_dir ==> entry_json((path, is_dir)).text_field("kind"@) == Some("file"@),
{
    reveal_strlit("path");
    reveal_strlit("kind");
    assert("path"@[0] == 'p' && "kind"@[0] == 'k');
    let f = entry_json((path, is_dir))->Object_0;
    lemma_field_of(f, 0, "kind"@);
    lemma_field_of(f, 1, "path"@);
}

/// A match says its file, the number of its line, the line's tag and the line.
pub proof fn law_match_in_an_answer(m: super::search::MatchView)
    requires
        0 <= m.line <= u64::MAX,
    ensures
        match_json(m).text_field("path"@) == Some(m.path),
        match_json(m).unsigned_field("line"@) matches Some(n) && n == m.line,
        match_json(m).text_field("tag"@) == Some(m.tag),
        match_json(m).text_field("text"@) == Some(m.text),
{
    reveal_strlit("line");
    reveal_strlit("path");
    reveal_strlit("tag");
    reveal_strlit("text");
    assert("line"@[0] == 'l' && "path"@[0] == 'p' && "tag"@[0] == 't' && "text"@[0] == 't'
        && "tag"@.len() == 3 && "text"@.len() == 4);
    let f = match_json(m)->Object_0;
    lemma_field_of(f, 0, "line"@);
    lemma_field_of(f, 1, "path"@);
    lemma_field_of(f, 2, "tag"@);
    lemma_field_of(f, 3, "text"@);
}

/// Of the paths that a walk visits, exactly those are shown that the pattern matches, in their order.
pub proof fn law_globbed_paths(paths: Seq<Seq<char>>, last: Seq<char>, pattern: Seq<char>)
    ensures
        globbed(Seq::empty(), pattern).len() == 0,
        super::search::globs(vstd::utf8::encode_utf8(pattern), vstd::utf8::encode_utf8(last))
            ==> globbed(paths.push(last), pattern) == globbed(paths, pattern).push(last),
        !super::search::globs(vstd::utf8::encode_utf8(pattern), vstd::utf8::encode_utf8(last))
            ==> globbed(paths.push(last), pattern) == globbed(paths, pattern),
{
    reveal(Seq::filter);
    assert(paths.push(last).drop_last() =~= paths);
}

/// A tag to insert behind goes before a tag to replace from, and that before an exact text; without any
/// of them there is nothing to edit.
pub proof fn law_edit_by_its_arguments(args: JsonView, text: Seq<char>, new: Seq<char>)
    ensures
        args.text_field("after"@) matches Some(tag) ==> edited(args, text, new)
            == super::edit::inserted_after(super::lines::split(text), tag, new),
        args.text_field("after"@) is None ==> (args.text_field("start"@) matches Some(tag) ==> (
        args.text_field("end"@) is None ==> edited(args, text, new) == super::edit::range_replaced(
            super::lines::split(text),
            tag,
            tag,
            new,
        )) && (args.text_field("end"@) matches Some(end) ==> edited(args, text, new)
            == super::edit::range_replaced(super::lines::split(text), tag, end, new))),
        args.text_field("after"@) is None && args.text_field("start"@) is None && args.text_field(
            "old"@,
        ) is None ==> edited(args, text, new) == Err::<Seq<char>, Seq<char>>(
            "provide start/end, after, or legacy old text"@,
        ),
{
}

/// An exact text that is to be replaced has to stand in the file; its first occurrence is replaced, or
/// every one where that is asked for.
pub proof fn law_edit_of_an_exact_text(
    args: JsonView,
    a: Seq<char>,
    exact: Seq<char>,
    b: Seq<char>,
    new: Seq<char>,
)
    requires
        args.text_field("after"@) is None,
        args.text_field("start"@) is None,
        args.text_field("old"@) == Some(exact),
        exact.len() > 0,
    ensures
        (forall|k: int|
            0 <= k && k + exact.len() <= a.len() ==> #[trigger] a.subrange(k, k + exact.len())
                != exact) ==> edited(args, a, new) == Err::<Seq<char>, Seq<char>>(
            "old text was not found"@,
        ),
        (forall|k: int|
            0 <= k < a.len() ==> #[trigger] (a + exact + b).subrange(k, k + exact.len()) != exact)
            && args.bool_field("replace_all"@) != Some(true) ==> edited(args, a + exact + b, new)
            == Ok::<Seq<char>, Seq<char>>(a + new + b),
        (forall|k: int|
            0 <= k < a.len() ==> #[trigger] (a + exact + b).subrange(k, k + exact.len()) != exact)
            && args.bool_field("replace_all"@) == Some(true) ==> edited(args, a + exact + b, new)
            == Ok::<Seq<char>, Seq<char>>(a + new + super::edit::all_replaced(b, exact, new)),
{
    crate::text::law_occurs_somewhere(a, exact);
    let s = a + exact + b;
    crate::text::law_occurs_somewhere(s, exact);
    let at = a.len() as int;
    assert(s.subrange(at, at + exact.len()) =~= exact);
    if forall|k: int|
        0 <= k < a.len() ==> #[trigger] (a + exact + b).subrange(k, k + exact.len()) != exact {
        super::edit::law_first_occurrence_is_replaced(a, exact, b, new);
        super::edit::law_every_occurrence_is_replaced(a, exact, b, new);
    }
}

/// What a command does by default: a word that reaches out is refused while the network is off, and only
/// then; what else begins with a reading word is allowed, and all the rest is asked for.
pub proof fn law_command_by_default(command: Seq<char>, network: bool)
    ensures
        (command_action(command, network) == PermissionAction::Deny) == (!network
            && super::search::uses_network(command)),
        command_action(command, true) == PermissionAction::Allow || command_action(command, true)
            == PermissionAction::Ask,
        (command_action(command, true) == PermissionAction::Allow) == super::search::is_reading_word(
            super::search::leading_word(command),
        ),
        !super::search::uses_network(command) ==> command_action(command, false) == command_action(
            command,
            true,
        ),
{
}

/// An answer with what a command wrote says how it ended: its code, none where it was ended from
/// outside, and in words whether that was zero.
pub proof fn law_bash_answer(
    r: ToolResult,
    code: Option<i32>,
    stdout: Seq<char>,
    stderr: Seq<char>,
)
    requires
        BashTool::is_answer(r, code, stdout, stderr),
    ensures
        r.ok,
        r.content@.text_field("stdout"@) == Some(stdout),
        r.content@.text_field("stderr"@) == Some(stderr),
        code == Some(0i32) ==> r.content@.text_field("summary"@) == Some("bash completed"@),
        code != Some(0i32) ==> r.content@.text_field("summary"@) == Some("bash exited non-zero"@),
        code is None ==> r.content@.field("exit_code"@) == Some(JsonView::Null),
        code matches Some(c) ==> (c >= 0 ==> (r.content@.field("exit_code"@) matches Some(
            JsonView::Number(JsonNumber::Unsigned(n)),
        ) && n == c)) && (c < 0 ==> (r.content@.field("exit_code"@) matches Some(
            JsonView::Number(JsonNumber::Negative(n)),
        ) && n == c)),
{
    reveal_strlit("exit_code");
    reveal_strlit("stderr");
    reveal_strlit("stdout");
    reveal_strlit("summary");
    assert("exit_code"@[0] == 'e' && "stderr"@[3] == 'e' && "stdout"@[3] == 'o' && "summary"@[1]
        == 'u' && "stderr"@[1] == 't' && "stdout"@[1] == 't' && "stderr"@[0] == 's' && "stdout"@[0]
        == 's' && "summary"@[0] == 's');
    let f = r.content@->Object_0;
    lemma_field_of(f, 0, "exit_code"@);
    lemma_field_of(f, 1, "stderr"@);
    lemma_field_of(f, 2, "stdout"@);
    lemma_field_of(f, 3, "summary"@);
}

/// The answer of a tool that changed a file says which, and what was done.
pub proof fn law_done_answer(r: ToolResult, path: Seq<char>, summary: Seq<char>)
    requires
        is_done(r, path, summary),
    ensures
        r.ok,
        r.content@.text_field("path"@) == Some(path),
        r.content@.text_field("summary"@) == Some(summary),
{
    reveal_strlit("path");
    reveal_strlit("summary");
    assert("path"@[0] == 'p' && "summary"@[0] == 's');
    let f = r.content@->Object_0;
    lemma_field_of(f, 0, "path"@);
    lemma_field_of(f, 1, "summary"@);
}

/// What a search is to look for and where: the pattern as it was given, and below the given path, or the
/// working directory; the case of letters matters unless it is said not to. A call without a pattern is
/// refused, and so is one that leaves the readable roots.
pub proof fn law_search_by_its_arguments(
    r: Result<SearchPlan, ToolResult>,
    args: JsonView,
    ctx: ToolCtx,
)
    requires
        is_search_plan(r, args, ctx),
    ensures
        args.text_field("pattern"@) is None ==> (r matches Err(e) && e.is_error("missing pattern"@)),
        r matches Ok(plan) ==> args.text_field("pattern"@) == Some(plan.pattern@),
        r matches Ok(plan) ==> (args.text_field("path"@) matches Some(p) ==> plan.root@
            == super::paths::resolved(ctx.cwd@, p)),
        r matches Ok(plan) ==> (args.text_field("path"@) is None ==> plan.root@ == ctx.cwd@),
        r matches Ok(plan) ==> super::paths::lies_in_any(plan.root@, ctx.readable_roots@),
        r matches Ok(plan) ==> (plan.case_sensitive == !(args.bool_field("case_sensitive"@) == Some(
            false,
        ))),
        args.text_field("pattern"@) is Some && r is Err ==> !super::paths::lies_in_any(
            path_or_cwd(args, ctx, "path"@),
            ctx.readable_roots@,
        ),
{
}

/// A refusal is no success and says why.
pub proof fn law_refusal_says_why(r: ToolResult, why: Seq<char>)
    requires
        r.is_error(why),
    ensures
        !r.ok,
        r.content@.text_field("error"@) == Some(why),
{
    lemma_field_of(r.content@->Object_0, 0, "error"@);
}

/// A file that is come to is known by its path, and its text where there is one.
pub proof fn law_file_as_it_is_read(path: &str, text: &str)
    ensures
        file_view(path, Some(text)) == (super::search::FileView { path: path@, text: Some(text@) }),
        file_view(path, None) == (super::search::FileView { path: path@, text: None }),
{
}

/// The properties of a list, by name and type, in the order of their names.
pub open spec fn named_types(props: Seq<Property>) -> Seq<(Seq<char>, Seq<char>)> {
    props.map_values(|p: Property| (p.name@, p.kind@))
}

/// What each tool can be given, and of which type.
pub proof fn law_properties_of_the_tools()
    ensures
        named_types(ReadTool::properties()) == seq![
            ("max_bytes"@, "integer"@),
            ("path"@, "string"@),
        ],
        named_types(ListTool::properties()) == seq![
            ("path"@, "string"@),
            ("recursive"@, "boolean"@),
        ],
        named_types(GlobTool::properties()) == seq![("path"@, "string"@), ("pattern"@, "string"@)],
        named_types(GrepTool::properties()) == seq![
            ("case_sensitive"@, "boolean"@),
            ("path"@, "string"@),
            ("pattern"@, "string"@),
        ],
        named_types(WriteTool::properties()) == seq![("content"@, "string"@), ("path"@, "string"@)],
        named_types(EditTool::properties()) == seq![
            ("after"@, "string"@),
            ("end"@, "string"@),
            ("new"@, "string"@),
            ("old"@, "string"@),
            ("path"@, "string"@),
            ("replace_all"@, "boolean"@),
            ("start"@, "string"@),
        ],
        named_types(BashTool::properties()) == seq![("command"@, "string"@)],
{
}

/// A schema lists its properties under their names, each with its type and description, and the names
/// that are required where there are any.
pub proof fn law_schema_lists_its_properties(props: Seq<Property>, required: Seq<Seq<char>>)
    ensures
        schema_view(props, required).field("properties"@) matches Some(JsonView::Object(fields))
            && fields.len() == props.len() && forall|i: int|
            0 <= i < props.len() ==> #[trigger] fields[i] == property_view(props[i]),
        required.len() == 0 ==> schema_view(props, required).field("required"@) is None,
        required.len() > 0 ==> (schema_view(props, required).field("required"@) matches Some(
            JsonView::Array(names),
        ) && names.len() == required.len() && forall|i: int|
            0 <= i < required.len() ==> #[trigger] names[i] == JsonView::Text(required[i])),
{
    reveal_strlit("properties");
    reveal_strlit("required");
    reveal_strlit("type");
    assert("properties"@.len() == 10 && "required"@.len() == 8 && "type"@.len() == 4);
    let f = schema_view(props, required)->Object_0;
    lemma_field_of(f, 0, "properties"@);
    if required.len() > 0 {
        lemma_field_of(f, 1, "required"@);
    } else {
        crate::tools::law_field_is_the_first_of_its_name(f, "required"@, JsonView::Null);
    }
}

} // verus!
