//! Tool contracts: schemas, arguments, permissions and results.
use vstd::prelude::*;
use vstd::string::*;

verus! {

/// A JSON number: a whole number, or the bits of an IEEE 754 double.
#[derive(Debug, Clone, Copy, PartialEq, Eq, Structural)]
pub enum JsonNumber {
    /// A whole number from zero up.
    Unsigned(u64),
    /// A whole number below zero.
    Negative(i64),
    /// Any other number.
    FloatBits(u64),
}

/// A JSON value. The fields of an object stand in the order of their names, each name once.
#[derive(Debug, PartialEq, Eq)]
pub enum Json {
    /// `null`.
    Null,
    /// `true` or `false`.
    Bool(bool),
    /// A number.
    Number(JsonNumber),
    /// A text.
    Text(String),
    /// A list.
    Array(Vec<Json>),
    /// Named fields.
    Object(Vec<(String, Json)>),
}

/// A [`Json`] value with its texts as sequences of characters.
pub enum JsonView {
    /// `null`.
    Null,
    /// `true` or `false`.
    Bool(bool),
    /// A number.
    Number(JsonNumber),
    /// A text.
    Text(Seq<char>),
    /// A list.
    Array(Seq<JsonView>),
    /// Named fields.
    Object(Seq<(Seq<char>, JsonView)>),
}

/// The view of a JSON value.
pub open spec fn json_view(j: Json) -> JsonView
    decreases j,
{
    match j {
        Json::Null => JsonView::Null,
        Json::Bool(b) => JsonView::Bool(b),
        Json::Number(n) => JsonView::Number(n),
        Json::Text(s) => JsonView::Text(s@),
        Json::Array(v) => JsonView::Array(array_view(v@)),
        Json::Object(v) => JsonView::Object(object_view(v@)),
    }
}

/// The views of a list's items.
pub open spec fn array_view(s: Seq<Json>) -> Seq<JsonView>
    decreases s,
{
    if s.len() == 0 {
        Seq::empty()
    } else {
        array_view(s.drop_last()).push(json_view(s.last()))
    }
}

/// The views of an object's fields.
pub open spec fn object_view(s: Seq<(String, Json)>) -> Seq<(Seq<char>, JsonView)>
    decreases s,
{
    if s.len() == 0 {
        Seq::empty()
    } else {
        object_view(s.drop_last()).push((s.last().0@, json_view(s.last().1)))
    }
}

impl View for Json {
    type V = JsonView;

    open spec fn view(&self) -> JsonView {
        json_view(*self)
    }
}

/// The views of a list's items, one by one.
pub broadcast proof fn lemma_array_view(s: Seq<Json>)
    ensures
        (#[trigger] array_view(s)).len() == s.len(),
        forall|i: int| 0 <= i < s.len() ==> #[trigger] array_view(s)[i] == json_view(s[i]),
    decreases s.len(),
{
    if s.len() > 0 {
        lemma_array_view(s.drop_last());
        assert forall|i: int| 0 <= i < s.len() implies #[trigger] array_view(s)[i] == json_view(
            s[i],
        ) by {
            if i < s.len() - 1 {
                assert(array_view(s.drop_last())[i] == json_view(s.drop_last()[i]));
            }
        }
    }
}

/// The views of an object's fields, one by one.
pub broadcast proof fn lemma_object_view(s: Seq<(String, Json)>)
    ensures
        (#[trigger] object_view(s)).len() == s.len(),
        forall|i: int|
            0 <= i < s.len() ==> #[trigger] object_view(s)[i] == (s[i].0@, json_view(s[i].1)),
    decreases s.len(),
{
    if s.len() > 0 {
        lemma_object_view(s.drop_last());
        assert forall|i: int| 0 <= i < s.len() implies #[trigger] object_view(s)[i] == (
            s[i].0@,
            json_view(s[i].1),
        ) by {
            if i < s.len() - 1 {
                assert(object_view(s.drop_last())[i] == (
                    s.drop_last()[i].0@,
                    json_view(s.drop_last()[i].1),
                ));
            }
        }
    }
}

/// The index of the first field called `name`, or the number of fields.
pub open spec fn field_at(fields: Seq<(Seq<char>, JsonView)>, name: Seq<char>) -> int
    decreases fields.len(),
{
    if fields.len() == 0 || fields[0].0 == name {
        0
    } else {
        1 + field_at(fields.drop_first(), name)
    }
}

/// Whether there is a field called `name`.
pub open spec fn has_field(fields: Seq<(Seq<char>, JsonView)>, name: Seq<char>) -> bool {
    field_at(fields, name) < fields.len()
}

proof fn lemma_field_at(fields: Seq<(Seq<char>, JsonView)>, name: Seq<char>, k: int)
    requires
        0 <= k <= fields.len(),
        k < fields.len() ==> fields[k].0 == name,
        forall|i: int| 0 <= i < k ==> (#[trigger] fields[i]).0 != name,
    ensures
        field_at(fields, name) == k,
    decreases k,
{
    if k > 0 {
        assert(fields[0].0 != name);
        let f = fields.drop_first();
        assert forall|i: int| 0 <= i < k - 1 implies (#[trigger] f[i]).0 != name by {
            assert(f[i] == fields[i + 1]);
        }
        lemma_field_at(f, name, k - 1);
    }
}

impl JsonView {
    /// The field of an object, if this is one and has it.
    pub open spec fn field(self, name: Seq<char>) -> Option<JsonView> {
        match self {
            JsonView::Object(fields) => if has_field(fields, name) {
                Some(fields[field_at(fields, name)].1)
            } else {
                None
            },
            _ => None,
        }
    }

    /// The text in a field, if there is one.
    pub open spec fn text_field(self, name: Seq<char>) -> Option<Seq<char>> {
        match self.field(name) {
            Some(JsonView::Text(s)) => Some(s),
            _ => None,
        }
    }

    /// The truth value in a field, if there is one.
    pub open spec fn bool_field(self, name: Seq<char>) -> Option<bool> {
        match self.field(name) {
            Some(JsonView::Bool(b)) => Some(b),
            _ => None,
        }
    }

    /// The whole number from zero up in a field, if there is one.
    pub open spec fn unsigned_field(self, name: Seq<char>) -> Option<u64> {
        match self.field(name) {
            Some(JsonView::Number(JsonNumber::Unsigned(n))) => Some(n),
            _ => None,
        }
    }
}

/// The index of the first field called `name`, or the number of fields.
fn find_field(fields: &[(String, Json)], name: &str) -> (r: usize)
    ensures
        r == field_at(object_view(fields@), name@),
        r <= fields@.len(),
{
    broadcast use lemma_object_view;

    let ghost all = object_view(fields@);
    let mut i: usize = 0;
    while i < fields.len()
        invariant
            i <= fields.len(),
            all == object_view(fields@),
            all.len() == fields@.len(),
            forall|k: int| 0 <= k < i ==> (#[trigger] all[k]).0 != name@,
        decreases fields.len() - i,
    {
        assert(all[i as int].0 == fields@[i as int].0@) by {
            lemma_object_view(fields@);
        }
        if crate::text::same(fields[i].0.as_str(), name) {
            proof {
                lemma_field_at(all, name@, i as int);
            }
            return i;
        }
        i = i + 1;
    }
    proof {
        lemma_field_at(all, name@, i as int);
    }
    i
}

impl Json {
    /// The field of an object, if this is one and has it.
    pub fn get(&self, name: &str) -> (r: Option<&Json>)
        ensures
            r is Some == self@.field(name@) is Some,
            r is Some ==> r->0@ == self@.field(name@)->0,
    {
        match self {
            Json::Object(fields) => {
                let k: usize = find_field(fields.as_slice(), name);
                proof {
                    lemma_object_view(fields@);
                }
                if k < fields.len() {
                    Some(&fields[k].1)
                } else {
                    None
                }
            },
            _ => None,
        }
    }

    /// The text, if this is one.
    pub fn as_str(&self) -> (r: Option<&str>)
        ensures
            r is Some == (self@ is Text),
            r is Some ==> self@ == JsonView::Text(r->0@),
    {
        match self {
            Json::Text(s) => Some(s.as_str()),
            _ => None,
        }
    }

    /// A copy of the text in a field, if there is one.
    pub fn get_text(&self, name: &str) -> (r: Option<String>)
        ensures
            crate::history::session::opt_text(r) == self@.text_field(name@),
    {
        match self.get(name) {
            Some(v) => match v {
                Json::Text(s) => Some(s.clone()),
                _ => None,
            },
            None => None,
        }
    }

    /// The truth value in a field, if there is one.
    pub fn get_bool(&self, name: &str) -> (r: Option<bool>)
        ensures
            r == self@.bool_field(name@),
    {
        match self.get(name) {
            Some(v) => match v {
                Json::Bool(b) => Some(*b),
                _ => None,
            },
            None => None,
        }
    }

    /// The whole number from zero up in a field, if there is one.
    pub fn get_unsigned(&self, name: &str) -> (r: Option<u64>)
        ensures
            r == self@.unsigned_field(name@),
    {
        match self.get(name) {
            Some(v) => match v {
                Json::Number(JsonNumber::Unsigned(n)) => Some(*n),
                _ => None,
            },
            None => None,
        }
    }

    /// A text value.
    pub fn text(s: &str) -> (r: Json)
        ensures
            r@ == JsonView::Text(s@),
    {
        Json::Text(s.to_owned())
    }
}

/// An object with one field.
pub fn object1(n1: &str, v1: Json) -> (r: Json)
    ensures
        r@ == JsonView::Object(seq![(n1@, v1@)]),
{
    let mut fields: Vec<(String, Json)> = Vec::new();
    fields.push((n1.to_owned(), v1));
    proof {
        lemma_object_view(fields@);
        assert(object_view(fields@) =~= seq![(n1@, v1@)]);
    }
    Json::Object(fields)
}

/// Identifier that the provider gives a tool call.
#[derive(Debug, PartialEq, Eq, Hash)]
pub struct ToolCallId(pub String);

/// A tool's name, description and parameters.
#[derive(Debug, PartialEq, Eq)]
pub struct ToolSchema {
    /// Unique tool name.
    pub name: String,
    /// Description for the model.
    pub description: String,
    /// JSON schema of the parameters.
    pub parameters: Json,
}

/// What a tool gives back to the provider.
#[derive(Debug, PartialEq, Eq)]
pub struct ToolResult {
    /// Whether the tool succeeded.
    pub ok: bool,
    /// What the model gets.
    pub content: Json,
}

impl ToolResult {
    /// A success.
    pub fn ok(content: Json) -> (r: Self)
        ensures
            r.ok,
            r.content == content,
    {
        ToolResult { ok: true, content }
    }

    /// A failure, delivered to the model as a value that holds the message.
    pub fn error(msg: &str) -> (r: Self)
        ensures
            r.is_error(msg@),
    {
        ToolResult { ok: false, content: object1("error", Json::text(msg)) }
    }

    /// A failure with this message.
    pub open spec fn is_error(&self, msg: Seq<char>) -> bool {
        &&& !self.ok
        &&& self.content@ == JsonView::Object(seq![("error"@, JsonView::Text(msg))])
    }
}

/// What to do with a tool request.
#[derive(Debug, Clone, Copy, PartialEq, Eq, Structural)]
pub enum PermissionAction {
    /// Run without asking.
    Allow,
    /// Ask for this exact call.
    Ask,
    /// Refuse.
    Deny,
}

/// A resolved permission request for one tool call.
#[derive(Debug, PartialEq, Eq)]
pub struct Permission {
    /// Policy key, such as `read` or `bash`.
    pub key: String,
    /// What the call is about: a path, a pattern or a command.
    pub subject: String,
    /// The tool's own action before any rule.
    pub default_action: PermissionAction,
    /// One line for a transcript.
    pub summary: String,
    /// Full detail for a prompt.
    pub detail: String,
}

/// Where and how a tool may work.
#[derive(Debug, PartialEq, Eq)]
pub struct ToolCtx {
    /// Roots that may be read.
    pub readable_roots: Vec<String>,
    /// Roots that may be changed.
    pub writable_roots: Vec<String>,
    /// Directory that relative paths start from.
    pub cwd: String,
    /// Time limit of a call, in milliseconds.
    pub timeout_ms: u64,
    /// Size limit of a result, in bytes.
    pub max_output_bytes: usize,
    /// Whether commands may use the network.
    pub network: bool,
}

/// Tools by name. Names grow from each entry to the next, so none occurs twice.
#[derive(Debug)]
pub struct ToolRegistry {
    tools: Vec<ToolSchema>,
}

/// The names of a list of schemas.
pub open spec fn names_of(tools: Seq<ToolSchema>) -> Seq<Seq<char>> {
    tools.map_values(|t: ToolSchema| t.name@)
}

/// Names grow from each to the next.
pub open spec fn names_grow(names: Seq<Seq<char>>) -> bool {
    forall|i: int, j: int|
        0 <= i < j < names.len() ==> crate::text::text_before(
            #[trigger] names[i],
            #[trigger] names[j],
        )
}

/// Where a name stands, or would stand, in a list of growing names.
pub open spec fn place_of(names: Seq<Seq<char>>, name: Seq<char>) -> int
    decreases names.len(),
{
    if names.len() == 0 || !crate::text::text_before(names[0], name) {
        0
    } else {
        1 + place_of(names.drop_first(), name)
    }
}

/// `tools` with `tool` in its place: instead of one of the same name, or between its neighbours.
pub open spec fn with_tool(tools: Seq<ToolSchema>, tool: ToolSchema) -> Seq<ToolSchema> {
    let k = place_of(names_of(tools), tool.name@);
    if k < tools.len() && tools[k].name@ == tool.name@ {
        tools.update(k, tool)
    } else {
        tools.insert(k, tool)
    }
}

proof fn lemma_place_of(names: Seq<Seq<char>>, name: Seq<char>, k: int)
    requires
        0 <= k <= names.len(),
        forall|i: int| 0 <= i < k ==> crate::text::text_before(#[trigger] names[i], name),
        k < names.len() ==> !crate::text::text_before(names[k], name),
    ensures
        place_of(names, name) == k,
    decreases k,
{
    if k > 0 {
        assert(crate::text::text_before(names[0], name));
        let f = names.drop_first();
        assert forall|i: int| 0 <= i < k - 1 implies crate::text::text_before(
            #[trigger] f[i],
            name,
        ) by {
            assert(f[i] == names[i + 1]);
        }
        lemma_place_of(f, name, k - 1);
    }
}

impl ToolRegistry {
    /// The registered tools, in the order of their names.
    pub closed spec fn entries(&self) -> Seq<ToolSchema> {
        self.tools@
    }

    /// Names grow from each entry to the next.
    pub open spec fn wf(&self) -> bool {
        names_grow(names_of(self.entries()))
    }

    /// An empty registry.
    pub fn new() -> (r: Self)
        ensures
            r.wf(),
            r.entries() == Seq::<ToolSchema>::empty(),
    {
        ToolRegistry { tools: Vec::new() }
    }

    /// Register a tool, in place of one with the same name.
    pub fn register(&mut self, tool: ToolSchema)
        requires
            old(self).wf(),
        ensures
            final(self).wf(),
            final(self).entries() == with_tool(old(self).entries(), tool),
    {
        let ghost before = self.tools@;
        let ghost names = names_of(before);
        let mut i: usize = 0;
        while i < self.tools.len() && crate::text::is_before(
            self.tools[i].name.as_str(),
            tool.name.as_str(),
        )
            invariant
                i <= self.tools.len(),
                self.tools@ == before,
                names == names_of(before),
                forall|k: int|
                    0 <= k < i ==> crate::text::text_before(#[trigger] names[k], tool.name@),
            decreases self.tools.len() - i,
        {
            assert(names[i as int] == before[i as int].name@);
            i = i + 1;
        }
        proof {
            assert(i < before.len() ==> names[i as int] == before[i as int].name@);
            lemma_place_of(names, tool.name@, i as int);
            assert forall|k: int| i <= k < names.len() implies names[k] == tool.name@
                || crate::text::text_before(tool.name@, #[trigger] names[k]) by {
                crate::text::lemma_text_order(tool.name@, names[i as int], names[k]);
                if k > i {
                    assert(crate::text::text_before(names[i as int], names[k]));
                }
            }
        }
        if i < self.tools.len() && crate::text::same(
            self.tools[i].name.as_str(),
            tool.name.as_str(),
        ) {
            self.tools.set(i, tool);
            proof {
                assert(names_of(self.tools@) =~= names);
            }
        } else {
            self.tools.insert(i, tool);
            proof {
                let new = names_of(self.tools@);
                assert(new =~= names.insert(i as int, tool.name@));
                assert forall|a: int, b: int|
                    0 <= a < b < new.len() implies crate::text::text_before(
                    #[trigger] new[a],
                    #[trigger] new[b],
                ) by {
                    let oa = if a < i {
                        a
                    } else {
                        a - 1
                    };
                    let ob = if b < i {
                        b
                    } else {
                        b - 1
                    };
                    if a == i {
                        assert(new[b] == names[ob]);
                        if ob > i {
                            assert(crate::text::text_before(names[i as int], names[ob]));
                            crate::text::lemma_text_order(
                                tool.name@,
                                names[i as int],
                                names[ob],
                            );
                        }
                    } else if b == i {
                        assert(new[a] == names[oa]);
                    } else {
                        assert(new[a] == names[oa]);
                        assert(new[b] == names[ob]);
                    }
                }
            }
        }
    }

    /// Find a tool by name.
    pub fn get(&self, name: &str) -> (r: Option<&ToolSchema>)
        ensures
            r is Some == names_of(self.entries()).contains(name@),
            r is Some ==> r->0.name@ == name@ && self.entries().contains(*r->0),
    {
        let mut i: usize = 0;
        while i < self.tools.len()
            invariant
                i <= self.tools.len(),
                forall|k: int| 0 <= k < i ==> (#[trigger] names_of(self.tools@)[k]) != name@,
            decreases self.tools.len() - i,
        {
            assert(names_of(self.tools@)[i as int] == self.tools@[i as int].name@);
            if crate::text::same(self.tools[i].name.as_str(), name) {
                assert(self.tools@.contains(self.tools@[i as int]));
                return Some(&self.tools[i]);
            }
            i = i + 1;
        }
        None
    }

    /// The schemas, in the order of their names.
    pub fn schemas(&self) -> (r: &[ToolSchema])
        ensures
            r@ == self.entries(),
    {
        self.tools.as_slice()
    }

    /// Whether nothing is registered.
    pub fn is_empty(&self) -> (r: bool)
        ensures
            r == (self.entries().len() == 0),
    {
        self.tools.len() == 0
    }
}

/// One permission rule.
#[derive(Debug, PartialEq, Eq)]
pub struct PermissionRule {
    /// Permission key to match.
    pub key: String,
    /// Subject pattern: `*` matches all, a trailing `*` matches a beginning.
    pub subject: String,
    /// Action on match.
    pub action: PermissionAction,
}

/// Ordered permission rules; the first that matches wins.
#[derive(Debug, PartialEq, Eq)]
pub struct PermissionProfile {
    /// The rules.
    pub rules: Vec<PermissionRule>,
}

/// Whether a subject pattern matches: `*` always; one that ends in `*` where the subject begins
/// with the rest; any other where it is the subject.
pub open spec fn pattern_matches(pattern: Seq<char>, subject: Seq<char>) -> bool {
    if pattern.len() > 0 && pattern.last() == '*' {
        crate::text::has_prefix(subject, pattern.drop_last())
    } else {
        pattern == subject
    }
}

/// Whether a rule speaks of a request.
pub open spec fn rule_matches(rule: PermissionRule, request: Permission) -> bool {
    rule.key@ == request.key@ && pattern_matches(rule.subject@, request.subject@)
}

/// The action of the first rule that matches, or the tool's own.
pub open spec fn first_match(rules: Seq<PermissionRule>, request: Permission) -> PermissionAction
    decreases rules.len(),
{
    if rules.len() == 0 {
        request.default_action
    } else if rule_matches(rules[0], request) {
        rules[0].action
    } else {
        first_match(rules.drop_first(), request)
    }
}

/// Whether a subject pattern matches.
pub fn subject_matches(pattern: &str, subject: &str) -> (r: bool)
    ensures
        r == pattern_matches(pattern@, subject@),
{
    let n: usize = pattern.unicode_len();
    if n > 0 && pattern.get_char(n - 1) == '*' {
        let prefix: &str = pattern.substring_char(0, n - 1);
        assert(prefix@ =~= pattern@.drop_last());
        return crate::text::starts_with(subject, prefix);
    }
    crate::text::same(pattern, subject)
}

/// Decide a resolved request: the first rule that matches wins, else the tool's own action stands.
pub fn evaluate_permission(profile: &PermissionProfile, request: &Permission) -> (r:
    PermissionAction)
    ensures
        r == first_match(profile.rules@, *request),
{
    let mut i: usize = 0;
    proof {
        assert(profile.rules@.skip(0) =~= profile.rules@);
    }
    while i < profile.rules.len()
        invariant
            i <= profile.rules.len(),
            first_match(profile.rules@, *request) == first_match(
                profile.rules@.skip(i as int),
                *request,
            ),
        decreases profile.rules.len() - i,
    {
        let rule: &PermissionRule = &profile.rules[i];
        if crate::text::same(rule.key.as_str(), request.key.as_str()) && subject_matches(
            rule.subject.as_str(),
            request.subject.as_str(),
        ) {
            return rule.action;
        }
        proof {
            assert(profile.rules@.skip(i as int).drop_first() =~= profile.rules@.skip(i + 1));
        }
        i = i + 1;
    }
    request.default_action
}

/// A rule that matches decides, whatever comes after it.
pub proof fn law_first_rule_wins(
    rule: PermissionRule,
    rest: Seq<PermissionRule>,
    request: Permission,
)
    requires
        rule_matches(rule, request),
    ensures
        first_match(seq![rule] + rest, request) == rule.action,
{
    assert((seq![rule] + rest)[0] == rule);
}

/// A rule that does not match changes nothing.
pub proof fn law_other_rule_is_skipped(
    rule: PermissionRule,
    rest: Seq<PermissionRule>,
    request: Permission,
)
    requires
        !rule_matches(rule, request),
    ensures
        first_match(seq![rule] + rest, request) == first_match(rest, request),
{
    assert((seq![rule] + rest).drop_first() =~= rest);
}

/// The pattern `*` matches every subject.
pub proof fn law_star_matches_all(subject: Seq<char>)
    ensures
        pattern_matches(seq!['*'], subject),
{
    assert(seq!['*'].drop_last() =~= Seq::<char>::empty());
    assert(subject.subrange(0, 0) =~= Seq::<char>::empty());
}

/// Whether a value is of a schema type. An unknown type fits everything.
pub open spec fn fits(kind: Seq<char>, v: JsonView) -> bool {
    if kind == "string"@ {
        v is Text
    } else if kind == "boolean"@ {
        v is Bool
    } else if kind == "integer"@ {
        v matches JsonView::Number(n) && !(n is FloatBits)
    } else if kind == "number"@ {
        v is Number
    } else if kind == "object"@ {
        v is Object
    } else if kind == "array"@ {
        v is Array
    } else {
        true
    }
}

/// The first required name that `fields` lacks. Names that are no text are passed over.
pub open spec fn first_missing(
    required: Seq<JsonView>,
    fields: Seq<(Seq<char>, JsonView)>,
) -> Option<Seq<char>>
    decreases required.len(),
{
    if required.len() == 0 {
        None
    } else {
        match required[0] {
            JsonView::Text(name) if !has_field(fields, name) => Some(name),
            _ => first_missing(required.drop_first(), fields),
        }
    }
}

/// The type that `props` asks of a field, if it asks for one.
pub open spec fn asked_type(props: JsonView, name: Seq<char>) -> Option<Seq<char>> {
    match props.field(name) {
        Some(prop) => prop.text_field("type"@),
        None => None,
    }
}

/// The first field that is not of the type that `props` asks for, with that type.
pub open spec fn first_misfit(fields: Seq<(Seq<char>, JsonView)>, props: JsonView) -> Option<
    (Seq<char>, Seq<char>),
>
    decreases fields.len(),
{
    if fields.len() == 0 {
        None
    } else {
        let (name, value) = fields[0];
        match asked_type(props, name) {
            Some(kind) if !fits(kind, value) => Some((name, kind)),
            _ => first_misfit(fields.drop_first(), props),
        }
    }
}

/// What is wrong with the arguments of a call, if anything.
pub open spec fn args_flaw(schema: JsonView, args: JsonView) -> Option<Seq<char>> {
    match args {
        JsonView::Object(fields) => {
            let missing = match schema.field("required"@) {
                Some(JsonView::Array(required)) => first_missing(required, fields),
                _ => None,
            };
            let misfit = match schema.field("properties"@) {
                Some(JsonView::Object(props)) => first_misfit(fields, JsonView::Object(props)),
                _ => None,
            };
            if missing is Some {
                Some("missing required argument `"@ + missing->0 + "`"@)
            } else {
                match misfit {
                    Some((name, kind)) => Some("argument `"@ + name + "` must be "@ + kind),
                    None => None,
                }
            }
        },
        _ => Some("tool arguments must be a JSON object"@),
    }
}

fn value_fits(kind: &str, v: &Json) -> (r: bool)
    ensures
        r == fits(kind@, v@),
{
    if crate::text::same(kind, "string") {
        match v {
            Json::Text(_) => true,
            _ => false,
        }
    } else if crate::text::same(kind, "boolean") {
        match v {
            Json::Bool(_) => true,
            _ => false,
        }
    } else if crate::text::same(kind, "integer") {
        match v {
            Json::Number(JsonNumber::FloatBits(_)) => false,
            Json::Number(_) => true,
            _ => false,
        }
    } else if crate::text::same(kind, "number") {
        match v {
            Json::Number(_) => true,
            _ => false,
        }
    } else if crate::text::same(kind, "object") {
        match v {
            Json::Object(_) => true,
            _ => false,
        }
    } else if crate::text::same(kind, "array") {
        match v {
            Json::Array(_) => true,
            _ => false,
        }
    } else {
        true
    }
}

fn find_missing(required: &[Json], fields: &[(String, Json)]) -> (r: Option<String>)
    ensures
        crate::history::session::opt_text(r) == first_missing(
            array_view(required@),
            object_view(fields@),
        ),
{
    let ghost all = array_view(required@);
    let mut i: usize = 0;
    proof {
        assert(all.skip(0) =~= all);
        lemma_array_view(required@);
        lemma_object_view(fields@);
    }
    while i < required.len()
        invariant
            i <= required.len(),
            all == array_view(required@),
            all.len() == required@.len(),
            object_view(fields@).len() == fields@.len(),
            first_missing(all, object_view(fields@)) == first_missing(
                all.skip(i as int),
                object_view(fields@),
            ),
        decreases required.len() - i,
    {
        proof {
            lemma_array_view(required@);
            assert(all.skip(i as int)[0] == json_view(required@[i as int]));
            assert(all.skip(i as int).drop_first() =~= all.skip(i + 1));
        }
        if let Json::Text(name) = &required[i] {
            if find_field(fields, name.as_str()) >= fields.len() {
                return Some(name.clone());
            }
        }
        i = i + 1;
    }
    None
}

fn find_misfit(fields: &[(String, Json)], props: &Json) -> (r: Option<(String, String)>)
    ensures
        match first_misfit(object_view(fields@), props@) {
            Some((name, kind)) => r matches Some((n, k)) && n@ == name && k@ == kind,
            None => r is None,
        },
{
    let ghost all = object_view(fields@);
    let mut i: usize = 0;
    proof {
        assert(all.skip(0) =~= all);
        lemma_object_view(fields@);
    }
    while i < fields.len()
        invariant
            i <= fields.len(),
            all == object_view(fields@),
            all.len() == fields@.len(),
            first_misfit(all, props@) == first_misfit(all.skip(i as int), props@),
        decreases fields.len() - i,
    {
        proof {
            lemma_object_view(fields@);
            assert(all.skip(i as int)[0] == all[i as int]);
            assert(all.skip(i as int).drop_first() =~= all.skip(i + 1));
        }
        let entry: &(String, Json) = &fields[i];
        if let Some(prop) = props.get(entry.0.as_str()) {
            if let Some(kind) = prop.get_text("type") {
                if !value_fits(kind.as_str(), &entry.1) {
                    return Some((entry.0.clone(), kind));
                }
            }
        }
        i = i + 1;
    }
    None
}

/// Check a call's arguments against the part of JSON Schema that the built-in tools use: an object,
/// with the required names, and with values of the types asked for.
pub fn validate_args(schema: &Json, args: &Json) -> (r: Result<(), String>)
    ensures
        match args_flaw(schema@, args@) {
            None => r is Ok,
            Some(why) => r matches Err(e) && e@ == why,
        },
{
    let fields: &Vec<(String, Json)> = match args {
        Json::Object(f) => f,
        _ => {
            return Err("tool arguments must be a JSON object".to_owned());
        },
    };
    if let Some(v) = schema.get("required") {
        if let Json::Array(required) = v {
            if let Some(name) = find_missing(required.as_slice(), fields.as_slice()) {
                return Err(crate::text::join3("missing required argument `", name.as_str(), "`"));
            }
        }
    }
    if let Some(props) = schema.get("properties") {
        if let Json::Object(_) = props {
            if let Some((name, kind)) = find_misfit(fields.as_slice(), props) {
                let mut msg: String = crate::text::join3("argument `", name.as_str(), "` must be ");
                msg.append(kind.as_str());
                return Err(msg);
            }
        }
    }
    Ok(())
}

/// Configuration of the tools.
#[derive(Debug, PartialEq, Eq)]
pub struct ToolsCfg {
    /// Whether tools are offered at all.
    pub enabled: bool,
    /// Roots that may be read; empty means the whole file system.
    pub readable_roots: Vec<String>,
    /// Roots that may be changed; empty means the working directory.
    pub writable_roots: Vec<String>,
    /// Names of the built-in tools; empty means the standard set.
    pub builtins: Vec<String>,
    /// Time limit of a call, in seconds.
    pub timeout_secs: u64,
    /// Size limit of a result, in bytes.
    pub max_output_bytes: usize,
    /// Whether commands may use the network.
    pub network: bool,
    /// Permission rules.
    pub permissions: PermissionProfile,
}

/// What a session holds to run tools.
#[derive(Debug)]
pub struct ToolRuntime {
    /// The tools.
    pub registry: ToolRegistry,
    /// Where and how they work.
    pub ctx_template: ToolCtx,
    /// Which calls are allowed.
    pub permission_profile: PermissionProfile,
}

impl ToolRuntime {
    /// Whether there are no tools, nothing that they may touch, and no rules for them.
    pub open spec fn is_disabled(&self) -> bool {
        &&& self.registry.entries().len() == 0
        &&& self.ctx_template.readable_roots@.len() == 0
        &&& self.ctx_template.writable_roots@.len() == 0
        &&& self.ctx_template.cwd@.len() == 0
        &&& self.ctx_template.timeout_ms == 30_000
        &&& self.ctx_template.max_output_bytes == 64 * 1024
        &&& !self.ctx_template.network
        &&& self.permission_profile.rules@.len() == 0
    }

    /// A runtime without tools.
    pub fn disabled() -> (r: Self)
        ensures
            r.registry.wf(),
            r.is_disabled(),
    {
        ToolRuntime {
            registry: ToolRegistry::new(),
            ctx_template: ToolCtx {
                readable_roots: Vec::new(),
                writable_roots: Vec::new(),
                cwd: String::new(),
                timeout_ms: 30_000,
                max_output_bytes: 64 * 1024,
                network: false,
            },
            permission_profile: PermissionProfile { rules: Vec::new() },
        }
    }
}

/// The field of an object is the first of that name; an object without one has none, nor has anything
/// that is no object.
pub proof fn law_field_is_the_first_of_its_name(
    fields: Seq<(Seq<char>, JsonView)>,
    name: Seq<char>,
    v: JsonView,
)
    ensures
        JsonView::Object(fields).field(name) == Some(v) ==> exists|i: int|
            #![trigger fields[i]]
            0 <= i < fields.len() && fields[i] == (name, v) && forall|j: int|
                0 <= j < i ==> (#[trigger] fields[j]).0 != name,
        JsonView::Object(fields).field(name) is None == forall|i: int|
            0 <= i < fields.len() ==> (#[trigger] fields[i]).0 != name,
        !(v is Object) ==> v.field(name) is None,
    decreases fields.len(),
{
    lemma_first_field(fields, name);
    let k = field_at(fields, name);
    if k < fields.len() {
        assert(fields[k].0 == name);
    }
}

proof fn lemma_first_field(fields: Seq<(Seq<char>, JsonView)>, name: Seq<char>)
    ensures
        0 <= field_at(fields, name) <= fields.len(),
        forall|j: int| 0 <= j < field_at(fields, name) ==> (#[trigger] fields[j]).0 != name,
        field_at(fields, name) < fields.len() ==> fields[field_at(fields, name)].0 == name,
    decreases fields.len(),
{
    if fields.len() > 0 && fields[0].0 != name {
        let rest = fields.drop_first();
        lemma_first_field(rest, name);
        assert forall|j: int| 0 <= j < field_at(fields, name) implies (#[trigger] fields[j]).0
            != name by {
            if j > 0 {
                assert(rest[j - 1] == fields[j]);
            }
        }
    }
}

/// A field is read as a text, a truth value or a whole number from zero up only where it is one.
pub proof fn law_fields_by_their_type(j: JsonView, name: Seq<char>, s: Seq<char>, b: bool, n: u64)
    ensures
        (j.text_field(name) == Some(s)) == (j.field(name) == Some(JsonView::Text(s))),
        (j.bool_field(name) == Some(b)) == (j.field(name) == Some(JsonView::Bool(b))),
        (j.unsigned_field(name) == Some(n)) == (j.field(name) == Some(
            JsonView::Number(JsonNumber::Unsigned(n)),
        )),
{
}

/// A pattern that ends in `*` matches what begins with the rest of it, and nothing else; any other
/// pattern matches itself alone.
pub proof fn law_patterns_match_beginnings(front: Seq<char>, rest: Seq<char>, subject: Seq<char>)
    ensures
        pattern_matches(front.push('*'), front + rest),
        pattern_matches(front.push('*'), subject) == (subject.len() >= front.len() && forall|i: int|
            0 <= i < front.len() ==> #[trigger] front[i] == subject[i]),
        front.len() == 0 || front.last() != '*' ==> pattern_matches(front, subject) == (front
            == subject),
{
    let p = front.push('*');
    assert(p.drop_last() =~= front);
    assert((front + rest).subrange(0, front.len() as int) =~= front);
    if subject.len() >= front.len() {
        let head = subject.subrange(0, front.len() as int);
        if forall|i: int| 0 <= i < front.len() ==> #[trigger] front[i] == subject[i] {
            assert(head =~= front);
        }
        if head == front {
            assert forall|i: int| 0 <= i < front.len() implies #[trigger] front[i] == subject[i] by {
                assert(head[i] == subject[i]);
            }
        }
    }
}

/// A request is decided by the first rule with its key whose pattern matches its subject; without one,
/// by what the tool itself asks for.
pub proof fn law_first_fitting_rule_decides(
    rules: Seq<PermissionRule>,
    request: Permission,
    i: int,
)
    ensures
        (0 <= i < rules.len() && rules[i].key@ == request.key@ && pattern_matches(
            rules[i].subject@,
            request.subject@,
        ) && forall|j: int|
            0 <= j < i ==> (#[trigger] rules[j]).key@ != request.key@ || !pattern_matches(
                rules[j].subject@,
                request.subject@,
            )) ==> first_match(rules, request) == rules[i].action,
        (forall|j: int|
            0 <= j < rules.len() ==> (#[trigger] rules[j]).key@ != request.key@ || !pattern_matches(
                rules[j].subject@,
                request.subject@,
            )) ==> first_match(rules, request) == request.default_action,
    decreases rules.len(),
{
    if rules.len() > 0 {
        let rest = rules.drop_first();
        assert forall|j: int| 0 <= j < rest.len() implies #[trigger] rest[j] == rules[j + 1] by {
        }
        if 0 < i < rules.len() {
            law_first_fitting_rule_decides(rest, request, i - 1);
        } else {
            law_first_fitting_rule_decides(rest, request, -1);
        }
    }
}

/// After a tool was registered it is there, alone under its name, and every other tool is there exactly
/// where it was before.
pub proof fn law_registered_tool_is_there(tools: Seq<ToolSchema>, tool: ToolSchema, other: ToolSchema)
    requires
        names_grow(names_of(tools)),
    ensures
        with_tool(tools, tool).contains(tool),
        other.name@ != tool.name@ ==> with_tool(tools, tool).contains(other) == tools.contains(
            other,
        ),
        other.name@ == tool.name@ && with_tool(tools, tool).contains(other) ==> other == tool,
{
    let name = tool.name@;
    let names = names_of(tools);
    let k = place_of(names, name);
    lemma_place_is_first(names, name);
    crate::text::lemma_text_order(name, name, name);
    let out = with_tool(tools, tool);
    assert(out[k] == tool);
    let replaced = k < tools.len() && tools[k].name@ == name;
    assert forall|i: int| 0 <= i < tools.len() && (#[trigger] tools[i]).name@ == name implies replaced
        && i == k by {
        assert(names[i] == name);
        if i > k {
            assert(names[k] == tools[k].name@);
            assert(crate::text::text_before(names[k], names[i]));
        }
    }
    if tools.contains(other) && other.name@ != name {
        let i = choose|i: int| 0 <= i < tools.len() && tools[i] == other;
        if replaced || i < k {
            assert(out[i] == other);
        } else {
            assert(out[i + 1] == other);
        }
    }
    if out.contains(other) && other != tool {
        let i = choose|i: int| 0 <= i < out.len() && out[i] == other;
        if replaced || i < k {
            assert(tools[i] == other);
        } else {
            assert(tools[i - 1] == other);
        }
    }
}

proof fn lemma_place_is_first(names: Seq<Seq<char>>, name: Seq<char>)
    ensures
        0 <= place_of(names, name) <= names.len(),
        forall|i: int|
            0 <= i < place_of(names, name) ==> crate::text::text_before(#[trigger] names[i], name),
        place_of(names, name) < names.len() ==> !crate::text::text_before(
            names[place_of(names, name)],
            name,
        ),
    decreases names.len(),
{
    if names.len() > 0 && crate::text::text_before(names[0], name) {
        let rest = names.drop_first();
        lemma_place_is_first(rest, name);
        assert forall|i: int| 0 <= i < place_of(names, name) implies crate::text::text_before(
            #[trigger] names[i],
            name,
        ) by {
            if i > 0 {
                assert(rest[i - 1] == names[i]);
            }
        }
    }
}

/// Which values are of which schema type.
pub proof fn law_types_of_values(v: JsonView, n: u64, m: i64, bits: u64, kind: Seq<char>)
    ensures
        fits("string"@, v) == (v is Text),
        fits("boolean"@, v) == (v is Bool),
        fits("number"@, v) == (v is Number),
        fits("object"@, v) == (v is Object),
        fits("array"@, v) == (v is Array),
        fits("integer"@, JsonView::Number(JsonNumber::Unsigned(n))),
        fits("integer"@, JsonView::Number(JsonNumber::Negative(m))),
        !fits("integer"@, JsonView::Number(JsonNumber::FloatBits(bits))),
        !(v is Number) ==> !fits("integer"@, v),
        !set!["string"@, "boolean"@, "integer"@, "number"@, "object"@, "array"@].contains(kind)
            ==> fits(kind, v),
{
    reveal_strlit("string");
    reveal_strlit("boolean");
    reveal_strlit("integer");
    reveal_strlit("number");
    reveal_strlit("object");
    reveal_strlit("array");
    assert("string"@[1] == 't' && "number"@[1] == 'u' && "object"@[1] == 'b' && "string"@.len() == 6);
    assert("boolean"@[0] == 'b' && "integer"@[0] == 'i' && "array"@[0] == 'a' && "number"@[0] == 'n'
        && "object"@[0] == 'o' && "string"@[0] == 's');
}

/// Arguments are sound exactly where they are an object that has every required name and whose fields
/// are of the types asked for.
pub proof fn law_sound_arguments(
    required: Seq<JsonView>,
    props: Seq<(Seq<char>, JsonView)>,
    fields: Seq<(Seq<char>, JsonView)>,
    schema: JsonView,
)
    requires
        schema.field("required"@) == Some(JsonView::Array(required)),
        schema.field("properties"@) == Some(JsonView::Object(props)),
    ensures
        (args_flaw(schema, JsonView::Object(fields)) is None) == ((forall|i: int|
            0 <= i < required.len() ==> (#[trigger] required[i] matches JsonView::Text(name)
                ==> exists|j: int| 0 <= j < fields.len() && (#[trigger] fields[j]).0 == name)) && (
        forall|j: int|
            0 <= j < fields.len() ==> (asked_type(
                JsonView::Object(props),
                (#[trigger] fields[j]).0,
            ) matches Some(kind) ==> fits(kind, fields[j].1)))),
{
    law_missing_is_the_first(required, fields);
    law_misfit_is_the_first(fields, JsonView::Object(props));
}

/// The name that is told missing is required and no field has it, and every required name before it is
/// there; none is told where all are there.
pub proof fn law_missing_is_the_first(required: Seq<JsonView>, fields: Seq<(Seq<char>, JsonView)>)
    ensures
        first_missing(required, fields) matches Some(name) ==> exists|i: int|
            #![trigger required[i]]
            0 <= i < required.len() && required[i] == JsonView::Text(name) && (forall|j: int|
                0 <= j < fields.len() ==> (#[trigger] fields[j]).0 != name) && forall|h: int|
                0 <= h < i ==> (#[trigger] required[h] matches JsonView::Text(n) ==> exists|j: int|
                    0 <= j < fields.len() && (#[trigger] fields[j]).0 == n),
        first_missing(required, fields) is None == forall|i: int|
            0 <= i < required.len() ==> (#[trigger] required[i] matches JsonView::Text(name)
                ==> exists|j: int| 0 <= j < fields.len() && (#[trigger] fields[j]).0 == name),
    decreases required.len(),
{
    if required.len() > 0 {
        let rest = required.drop_first();
        law_missing_is_the_first(rest, fields);
        if let JsonView::Text(name) = required[0] {
            lemma_first_field(fields, name);
            if has_field(fields, name) {
                assert(fields[field_at(fields, name)].0 == name);
            }
        }
        assert forall|i: int| 0 <= i < rest.len() implies #[trigger] rest[i] == required[i + 1] by {
        }
        let here = required[0] matches JsonView::Text(n) && !has_field(fields, n);
        if !here {
            if let Some(name) = first_missing(rest, fields) {
                let i = choose|i: int|
                    #![trigger rest[i]]
                    0 <= i < rest.len() && rest[i] == JsonView::Text(name) && (forall|j: int|
                        0 <= j < fields.len() ==> (#[trigger] fields[j]).0 != name) && forall|h: int|
                        0 <= h < i ==> (#[trigger] rest[h] matches JsonView::Text(n) ==> exists|
                            j: int,
                        |
                            0 <= j < fields.len() && (#[trigger] fields[j]).0 == n);
                assert(required[i + 1] == JsonView::Text(name));
                assert forall|h: int| 0 <= h < i + 1 implies (#[trigger] required[h] matches JsonView::Text(n) ==> exists|
                    j: int,
                |
                    0 <= j < fields.len() && (#[trigger] fields[j]).0 == n) by {
                    if h > 0 {
                        assert(rest[h - 1] == required[h]);
                    }
                }
            } else {
                assert forall|i: int| 0 <= i < required.len() implies (#[trigger] required[i] matches JsonView::Text(name) ==> exists|
                    j: int,
                |
                    0 <= j < fields.len() && (#[trigger] fields[j]).0 == name) by {
                    if i > 0 {
                        assert(rest[i - 1] == required[i]);
                    }
                }
            }
        }
    }
}

/// The field that is told not to fit has a value that is not of the type asked for, and every field
/// before it fits; none is told where all fit.
pub proof fn law_misfit_is_the_first(fields: Seq<(Seq<char>, JsonView)>, props: JsonView)
    ensures
        first_misfit(fields, props) matches Some((name, kind)) ==> exists|i: int|
            #![trigger fields[i]]
            0 <= i < fields.len() && fields[i].0 == name && asked_type(props, name) == Some(kind)
                && !fits(kind, fields[i].1) && forall|h: int|
                0 <= h < i ==> (asked_type(props, (#[trigger] fields[h]).0) matches Some(k) ==> fits(
                    k,
                    fields[h].1,
                )),
        first_misfit(fields, props) is None == forall|i: int|
            0 <= i < fields.len() ==> (asked_type(props, (#[trigger] fields[i]).0) matches Some(k)
                ==> fits(k, fields[i].1)),
    decreases fields.len(),
{
    if fields.len() > 0 {
        let rest = fields.drop_first();
        law_misfit_is_the_first(rest, props);
        assert forall|i: int| 0 <= i < rest.len() implies #[trigger] rest[i] == fields[i + 1] by {
        }
        let here = asked_type(props, fields[0].0) matches Some(k) && !fits(k, fields[0].1);
        if !here {
            if let Some((name, kind)) = first_misfit(rest, props) {
                let i = choose|i: int|
                    #![trigger rest[i]]
                    0 <= i < rest.len() && rest[i].0 == name && asked_type(props, name) == Some(kind)
                        && !fits(kind, rest[i].1) && forall|h: int|
                        0 <= h < i ==> (asked_type(props, (#[trigger] rest[h]).0) matches Some(k)
                            ==> fits(k, rest[h].1));
                assert(fields[i + 1] == rest[i]);
                assert forall|h: int| 0 <= h < i + 1 implies (asked_type(
                    props,
                    (#[trigger] fields[h]).0,
                ) matches Some(k) ==> fits(k, fields[h].1)) by {
                    if h > 0 {
                        assert(rest[h - 1] == fields[h]);
                    }
                }
            } else {
                assert forall|i: int| 0 <= i < fields.len() implies (asked_type(
                    props,
                    (#[trigger] fields[i]).0,
                ) matches Some(k) ==> fits(k, fields[i].1)) by {
                    if i > 0 {
                        assert(rest[i - 1] == fields[i]);
                    }
                }
            }
        }
    }
}

/// What is told of unsound arguments: that they are no object, else the missing name, else the field
/// that does not fit and its type.
pub proof fn law_flaw_in_words(
    schema: JsonView,
    args: JsonView,
    required: Seq<JsonView>,
    props: Seq<(Seq<char>, JsonView)>,
    fields: Seq<(Seq<char>, JsonView)>,
)
    requires
        schema.field("required"@) == Some(JsonView::Array(required)),
        schema.field("properties"@) == Some(JsonView::Object(props)),
    ensures
        !(args is Object) ==> args_flaw(schema, args) == Some(
            "tool arguments must be a JSON object"@,
        ),
        first_missing(required, fields) matches Some(name) ==> args_flaw(
            schema,
            JsonView::Object(fields),
        ) == Some("missing required argument `"@ + name + "`"@),
        first_missing(required, fields) is None ==> (first_misfit(fields, JsonView::Object(props)) matches Some(
            (name, kind),
        ) ==> args_flaw(schema, JsonView::Object(fields)) == Some(
            "argument `"@ + name + "` must be "@ + kind,
        )),
{
}

/// Without a list of required names none is missing, and without properties every field fits.
pub proof fn law_open_schema_takes_every_object(
    schema: JsonView,
    fields: Seq<(Seq<char>, JsonView)>,
)
    requires
        schema.field("required"@) is None,
        schema.field("properties"@) is None,
    ensures
        args_flaw(schema, JsonView::Object(fields)) is None,
{
}

} // verus!
