//! Template tools: the metadata under which one file template is exposed to
//! a tool-calling client — its tool name, display name, description, and the
//! JSON schema of its arguments.

use vstd::prelude::*;

use crate::chars::{
    ascii_lower, chars_string, lit_string, push_chars, push_str_chars, spec_ascii_alnum,
    spec_ascii_lower, spec_trim, str_chars, trim_chars,
};
use crate::types::{Arg, ArgKind, ArgV, TemplateFile, TemplateFileV};

verus! {

// ---------------------------------------------------------------------------
// A minimal JSON value model
// ---------------------------------------------------------------------------
/// A JSON value, with object members in declaration order.
#[derive(Debug)]
pub enum JsonValue {
    Null,
    Bool(bool),
    Int(i64),
    Str(String),
    Arr(Vec<JsonValue>),
    Obj(Vec<JsonMember>),
}

/// One member of a JSON object.
#[derive(Debug)]
pub struct JsonMember {
    pub key: String,
    pub value: JsonValue,
}

/// The mathematical model of a [`JsonValue`].
pub enum JsonValueV {
    Null,
    Bool(bool),
    Int(i64),
    Str(Seq<char>),
    Arr(Seq<JsonValueV>),
    Obj(Seq<(Seq<char>, JsonValueV)>),
}

/// The model of one JSON value.
pub open spec fn spec_json_view(v: JsonValue) -> JsonValueV
    decreases v,
{
    match v {
        JsonValue::Null => JsonValueV::Null,
        JsonValue::Bool(b) => JsonValueV::Bool(b),
        JsonValue::Int(n) => JsonValueV::Int(n),
        JsonValue::Str(s) => JsonValueV::Str(s@),
        JsonValue::Arr(items) => JsonValueV::Arr(spec_jsons_view(items@)),
        JsonValue::Obj(members) => JsonValueV::Obj(spec_json_members_view(members@)),
    }
}

/// The model of a list of JSON values.
pub open spec fn spec_jsons_view(s: Seq<JsonValue>) -> Seq<JsonValueV>
    decreases s,
{
    if s.len() == 0 {
        Seq::empty()
    } else {
        spec_jsons_view(s.drop_last()).push(spec_json_view(s.last()))
    }
}

/// The model of a list of JSON object members.
pub open spec fn spec_json_members_view(s: Seq<JsonMember>) -> Seq<(Seq<char>, JsonValueV)>
    decreases s,
{
    if s.len() == 0 {
        Seq::empty()
    } else {
        spec_json_members_view(s.drop_last()).push(
            (s.last().key@, spec_json_view(s.last().value)),
        )
    }
}

/// Lengths and members of the modelled member list line up one to one.
pub proof fn lemma_json_members_index(s: Seq<JsonMember>)
    ensures
        spec_json_members_view(s).len() == s.len(),
        forall|i: int|
            0 <= i < s.len() ==> #[trigger] spec_json_members_view(s)[i] == (
                s[i].key@,
                spec_json_view(s[i].value),
            ),
    decreases s.len(),
{
    if s.len() > 0 {
        lemma_json_members_index(s.drop_last());
    }
}

/// Lengths and members of the modelled value list line up one to one.
pub proof fn lemma_jsons_index(s: Seq<JsonValue>)
    ensures
        spec_jsons_view(s).len() == s.len(),
        forall|i: int|
            0 <= i < s.len() ==> #[trigger] spec_jsons_view(s)[i] == spec_json_view(s[i]),
    decreases s.len(),
{
    if s.len() > 0 {
        lemma_jsons_index(s.drop_last());
    }
}

/// Lengths and members of the property list line up one to one.
pub proof fn lemma_arg_properties_index(args: Seq<ArgV>)
    ensures
        spec_arg_properties(args).len() == args.len(),
        forall|i: int|
            0 <= i < args.len() ==> #[trigger] spec_arg_properties(args)[i] == (
                args[i].name,
                spec_arg_property(args[i]),
            ),
    decreases args.len(),
{
    if args.len() > 0 {
        lemma_arg_properties_index(args.drop_last());
    }
}

impl View for JsonValue {
    type V = JsonValueV;

    open spec fn view(&self) -> JsonValueV {
        spec_json_view(*self)
    }
}

impl DeepView for JsonValue {
    type V = JsonValueV;

    open spec fn deep_view(&self) -> JsonValueV {
        self@
    }
}

/// A single-member schema fragment `{"type": t}`.
pub open spec fn spec_json_type(t: Seq<char>) -> JsonValueV {
    JsonValueV::Obj(seq![("type"@, JsonValueV::Str(t))])
}

/// A single-member schema fragment `{"type": t}`.
pub fn json_type(t: &str) -> (r: JsonValue)
    ensures
        r@ == spec_json_type(t@),
{
    let mut members: Vec<JsonMember> = Vec::new();
    members.push(JsonMember { key: lit_string("type"), value: JsonValue::Str(lit_string(t)) });
    let r = JsonValue::Obj(members);
    proof {
        lemma_json_members_index(r->Obj_0@);
        assert(spec_json_members_view(r->Obj_0@) =~= seq![("type"@, JsonValueV::Str(t@))]);
    }
    r
}

// ---------------------------------------------------------------------------
// Argument schemas
// ---------------------------------------------------------------------------
/// The schema name of an argument kind; `Any` adds no type member.
pub open spec fn spec_kind_type(k: ArgKind) -> Option<Seq<char>> {
    match k {
        ArgKind::Boolean(_) => Option::Some("boolean"@),
        ArgKind::String(_) => Option::Some("string"@),
        ArgKind::Number(_) => Option::Some("number"@),
        ArgKind::Any(_) => Option::None,
    }
}

/// The schema of one argument: its type member when the kind declares one,
/// then its description when it has one.
pub open spec fn spec_arg_property(a: ArgV) -> JsonValueV {
    let tm: Seq<(Seq<char>, JsonValueV)> = match spec_kind_type(a.kind) {
        Option::Some(t) => seq![("type"@, JsonValueV::Str(t))],
        Option::None => Seq::empty(),
    };
    let dm: Seq<(Seq<char>, JsonValueV)> = if spec_trim(a.description).len() > 0 {
        seq![("description"@, JsonValueV::Str(a.description))]
    } else {
        Seq::empty()
    };
    JsonValueV::Obj(tm + dm)
}

/// The property members of an argument list, in declaration order.
pub open spec fn spec_arg_properties(args: Seq<ArgV>) -> Seq<(Seq<char>, JsonValueV)>
    decreases args.len(),
{
    if args.len() == 0 {
        Seq::empty()
    } else {
        spec_arg_properties(args.drop_last()).push(
            (args.last().name, spec_arg_property(args.last())),
        )
    }
}

/// The names of the required arguments, in declaration order.
pub open spec fn spec_required_names(args: Seq<ArgV>) -> Seq<JsonValueV>
    decreases args.len(),
{
    if args.len() == 0 {
        Seq::empty()
    } else {
        spec_required_names(args.drop_last()) + (if args.last().required {
            seq![JsonValueV::Str(args.last().name)]
        } else {
            Seq::empty()
        })
    }
}

/// The JSON schema of a template's arguments: an object schema with one
/// property per argument, no additional properties, and — when any argument
/// is required — the list of required names.
pub open spec fn spec_args_schema(args: Seq<ArgV>) -> JsonValueV {
    let head: Seq<(Seq<char>, JsonValueV)> = seq![
        ("type"@, JsonValueV::Str("object"@)),
        ("properties"@, JsonValueV::Obj(spec_arg_properties(args))),
        ("additionalProperties"@, JsonValueV::Bool(false)),
    ];
    let req = spec_required_names(args);
    JsonValueV::Obj(
        head + (if req.len() > 0 {
            seq![("required"@, JsonValueV::Arr(req))]
        } else {
            Seq::empty()
        }),
    )
}

/// The schema of one argument.
fn arg_property(a: &Arg) -> (r: JsonValue)
    ensures
        r@ == spec_arg_property(a@),
{
    let mut members: Vec<JsonMember> = Vec::new();
    match a.kind {
        ArgKind::Boolean(_) => {
            members.push(
                JsonMember { key: lit_string("type"), value: JsonValue::Str(lit_string("boolean")) },
            );
        },
        ArgKind::String(_) => {
            members.push(
                JsonMember { key: lit_string("type"), value: JsonValue::Str(lit_string("string")) },
            );
        },
        ArgKind::Number(_) => {
            members.push(
                JsonMember { key: lit_string("type"), value: JsonValue::Str(lit_string("number")) },
            );
        },
        ArgKind::Any(_) => {},
    }
    let ghost tm = spec_json_members_view(members@);
    let dc = str_chars(a.description.as_str());
    let dt = trim_chars(&dc);
    if dt.len() > 0 {
        members.push(
            JsonMember { key: lit_string("description"), value: JsonValue::Str(a.description.clone()) },
        );
    }
    let r = JsonValue::Obj(members);
    proof {
        lemma_json_members_index(r->Obj_0@);
        let spec = spec_arg_property(a@);
        assert(spec_json_members_view(r->Obj_0@) =~= spec->Obj_0);
    }
    r
}

/// Build the JSON schema of a template's argument list.
pub fn args_schema(args: &Vec<Arg>) -> (r: JsonValue)
    ensures
        r@ == spec_args_schema(args.deep_view()),
{
    let ghost argsv = args.deep_view();
    let mut properties: Vec<JsonMember> = Vec::new();
    let mut required: Vec<JsonValue> = Vec::new();
    let n = args.len();
    let mut i: usize = 0;
    while i < n
        invariant
            0 <= i <= n,
            n == argsv.len(),
            argsv == args.deep_view(),
            spec_json_members_view(properties@) == spec_arg_properties(argsv.take(i as int)),
            spec_jsons_view(required@) == spec_required_names(argsv.take(i as int)),
        decreases n - i,
    {
        proof {
            assert(argsv[i as int] == args@[i as int]@);
            let t = argsv.take(i + 1);
            assert(t.drop_last() =~= argsv.take(i as int));
            assert(t.last() == argsv[i as int]);
        }
        let prop = arg_property(&args[i]);
        let ghost pre_props = properties@;
        let pm = JsonMember { key: args[i].name.clone(), value: prop };
        properties.push(pm);
        proof {
            assert(properties@.drop_last() =~= pre_props);
            assert(properties@.last() == pm);
            assert(spec_json_members_view(properties@) == spec_json_members_view(pre_props).push(
                (pm.key@, spec_json_view(pm.value)),
            ));
            assert(spec_json_members_view(properties@) =~= spec_arg_properties(
                argsv.take(i + 1),
            ));
        }
        if args[i].required {
            let ghost pre_req = required@;
            let rv = JsonValue::Str(args[i].name.clone());
            required.push(rv);
            proof {
                assert(required@.drop_last() =~= pre_req);
                assert(required@.last() == rv);
                assert(spec_jsons_view(required@) == spec_jsons_view(pre_req).push(
                    spec_json_view(rv),
                ));
                assert(spec_jsons_view(required@) =~= spec_required_names(argsv.take(i + 1)));
            }
        } else {
            proof {
                assert(spec_jsons_view(required@) =~= spec_required_names(argsv.take(i + 1)));
            }
        }
        i = i + 1;
    }
    proof {
        assert(argsv.take(n as int) =~= argsv);
    }
    let mut members: Vec<JsonMember> = Vec::new();
    members.push(JsonMember { key: lit_string("type"), value: JsonValue::Str(lit_string("object")) });
    members.push(JsonMember { key: lit_string("properties"), value: JsonValue::Obj(properties) });
    members.push(JsonMember { key: lit_string("additionalProperties"), value: JsonValue::Bool(false) });
    if required.len() > 0 {
        members.push(JsonMember { key: lit_string("required"), value: JsonValue::Arr(required) });
    }
    let r = JsonValue::Obj(members);
    proof {
        lemma_json_members_index(r->Obj_0@);
        let spec = spec_args_schema(argsv);
        assert(spec_json_members_view(r->Obj_0@) =~= spec->Obj_0);
    }
    r
}

/// The JSON schema of a rendered file: content always, a language hint, and
/// the output path exactly when the template declares one.
pub open spec fn spec_output_schema(t: TemplateFileV) -> JsonValueV {
    let props: Seq<(Seq<char>, JsonValueV)> = seq![
        ("content"@, spec_json_type("string"@)),
        ("lang"@, spec_json_type("string"@)),
    ] + (if t.path is Some {
        seq![("path"@, spec_json_type("string"@))]
    } else {
        Seq::empty()
    });
    let req: Seq<JsonValueV> = seq![JsonValueV::Str("content"@)] + (if t.path is Some {
        seq![JsonValueV::Str("path"@)]
    } else {
        Seq::empty()
    });
    JsonValueV::Obj(
        seq![
            ("$schema"@, JsonValueV::Str("https://json-schema.org/draft/2020-12/schema"@)),
            ("title"@, JsonValueV::Str(t.id + ":OutputFile"@)),
            ("type"@, JsonValueV::Str("object"@)),
            ("properties"@, JsonValueV::Obj(props)),
            ("required"@, JsonValueV::Arr(req)),
        ],
    )
}

/// Build the output schema of a file template.
pub fn output_schema(t: &TemplateFile) -> (r: JsonValue)
    ensures
        r@ == spec_output_schema(t@),
{
    let mut props: Vec<JsonMember> = Vec::new();
    props.push(JsonMember { key: lit_string("content"), value: json_type("string") });
    props.push(JsonMember { key: lit_string("lang"), value: json_type("string") });
    let mut req: Vec<JsonValue> = Vec::new();
    req.push(JsonValue::Str(lit_string("content")));
    match &t.path {
        Option::Some(_) => {
            props.push(JsonMember { key: lit_string("path"), value: json_type("string") });
            req.push(JsonValue::Str(lit_string("path")));
        },
        Option::None => {},
    }
    let mut title: Vec<char> = Vec::new();
    push_str_chars(&mut title, t.id.as_str());
    push_str_chars(&mut title, ":OutputFile");
    let mut members: Vec<JsonMember> = Vec::new();
    members.push(
        JsonMember {
            key: lit_string("$schema"),
            value: JsonValue::Str(lit_string("https://json-schema.org/draft/2020-12/schema")),
        },
    );
    members.push(JsonMember { key: lit_string("title"), value: JsonValue::Str(chars_string(&title)) });
    members.push(JsonMember { key: lit_string("type"), value: JsonValue::Str(lit_string("object")) });
    members.push(JsonMember { key: lit_string("properties"), value: JsonValue::Obj(props) });
    members.push(JsonMember { key: lit_string("required"), value: JsonValue::Arr(req) });
    let r = JsonValue::Obj(members);
    proof {
        lemma_json_members_index(r->Obj_0@);
        lemma_json_members_index(props@);
        lemma_jsons_index(req@);
        let spec = spec_output_schema(t@);
        assert(spec_json_members_view(props@) =~= spec->Obj_0[3].1->Obj_0);
        assert(spec_jsons_view(req@) =~= spec->Obj_0[4].1->Arr_0);
        assert(spec_json_members_view(r->Obj_0@) =~= spec->Obj_0);
    }
    r
}

// ---------------------------------------------------------------------------
// Required-argument validation
// ---------------------------------------------------------------------------
/// The names of the required arguments missing from the provided names, in
/// declaration order.
pub open spec fn spec_missing_args(args: Seq<ArgV>, provided: Seq<Seq<char>>) -> Seq<Seq<char>>
    decreases args.len(),
{
    if args.len() == 0 {
        Seq::empty()
    } else {
        spec_missing_args(args.drop_last(), provided) + (if args.last().required && !provided
            .contains(args.last().name) {
            seq![args.last().name]
        } else {
            Seq::empty()
        })
    }
}

/// Names joined with `, `.
pub open spec fn spec_join_comma(names: Seq<Seq<char>>) -> Seq<char>
    decreases names.len(),
{
    if names.len() == 0 {
        Seq::empty()
    } else if names.len() == 1 {
        names[0]
    } else {
        spec_join_comma(names.drop_last()) + ", "@ + names.last()
    }
}

/// The failure text when required arguments are missing.
pub open spec fn spec_missing_args_message(t: TemplateFileV, provided: Seq<Seq<char>>) -> Seq<
    char,
> {
    "Missing required argument(s) "@ + spec_join_comma(spec_missing_args(t.args, provided))
        + " for template '"@ + t.id + "'."@
}

/// Check that every required argument of the template is among the provided
/// names: `Ok` exactly when none is missing, otherwise the failure text
/// naming every missing argument and the template.
pub fn ensure_required_args(template: &TemplateFile, provided: &Vec<String>) -> (r: Result<
    (),
    String,
>)
    ensures
        match r {
            Result::Ok(()) => spec_missing_args(template@.args, provided.deep_view()).len() == 0,
            Result::Err(m) => spec_missing_args(template@.args, provided.deep_view()).len() > 0
                && m@ == spec_missing_args_message(template@, provided.deep_view()),
        },
{
    let ghost argsv = template@.args;
    let ghost prov = provided.deep_view();
    let mut missing: Vec<String> = Vec::new();
    let n = template.args.len();
    let mut i: usize = 0;
    while i < n
        invariant
            0 <= i <= n,
            n == argsv.len(),
            argsv == template@.args,
            prov == provided.deep_view(),
            missing.deep_view() == spec_missing_args(argsv.take(i as int), prov),
        decreases n - i,
    {
        proof {
            assert(argsv[i as int] == template.args@[i as int]@);
            let t = argsv.take(i + 1);
            assert(t.drop_last() =~= argsv.take(i as int));
            assert(t.last() == argsv[i as int]);
        }
        let a = &template.args[i];
        let ghost pre = missing;
        if a.required && !crate::catalog::strings_contain(provided, a.name.as_str()) {
            let nm = a.name.clone();
            missing.push(nm);
            proof {
                crate::types::lemma_deep_view_push(pre, missing, nm);
                assert(missing.deep_view() =~= spec_missing_args(argsv.take(i + 1), prov));
            }
        } else {
            proof {
                assert(missing.deep_view() =~= spec_missing_args(argsv.take(i + 1), prov));
            }
        }
        i = i + 1;
    }
    proof {
        assert(argsv.take(n as int) =~= argsv);
    }
    if missing.len() == 0 {
        return Result::Ok(());
    }
    let mut out: Vec<char> = Vec::new();
    push_str_chars(&mut out, "Missing required argument(s) ");
    let mut joined: Vec<char> = Vec::new();
    let m = missing.len();
    let mut j: usize = 0;
    while j < m
        invariant
            0 <= j <= m,
            m == missing@.len(),
            missing.deep_view() == spec_missing_args(argsv, prov),
            joined@ == spec_join_comma(missing.deep_view().take(j as int)),
        decreases m - j,
    {
        if j > 0 {
            push_str_chars(&mut joined, ", ");
        }
        push_str_chars(&mut joined, missing[j].as_str());
        proof {
            let dv = missing.deep_view();
            let t = dv.take(j + 1);
            assert(t.drop_last() =~= dv.take(j as int));
            assert(t.last() == dv[j as int]);
            assert(dv[j as int] == missing@[j as int]@);
            if j == 0 {
                assert(joined@ =~= spec_join_comma(t));
            }
        }
        j = j + 1;
    }
    proof {
        assert(missing.deep_view().take(m as int) =~= missing.deep_view());
    }
    push_chars(&mut out, &joined);
    push_str_chars(&mut out, " for template '");
    push_str_chars(&mut out, template.id.as_str());
    push_str_chars(&mut out, "'.");
    Result::Err(chars_string(&out))
}

// ---------------------------------------------------------------------------
// The tool itself
// ---------------------------------------------------------------------------
/// A sanitized tool name: ASCII alphanumerics lowercased, every other run of
/// characters collapsed into a single `_`, with no leading or trailing
/// separator.
pub open spec fn spec_sanitize_from(s: Seq<char>, i: int, acc: Seq<char>, sep: bool) -> Seq<char>
    decreases s.len() - i,
{
    if i < 0 || i >= s.len() {
        if acc.len() > 0 && acc.last() == '_' {
            acc.drop_last()
        } else {
            acc
        }
    } else {
        let c = s[i];
        if spec_ascii_alnum(c) {
            spec_sanitize_from(s, i + 1, acc.push(spec_ascii_lower(c)), false)
        } else if acc.len() > 0 && !sep {
            spec_sanitize_from(s, i + 1, acc.push('_'), true)
        } else {
            spec_sanitize_from(s, i + 1, acc, sep)
        }
    }
}

/// A sanitized tool name.
pub open spec fn spec_sanitize(s: Seq<char>) -> Seq<char> {
    spec_sanitize_from(s, 0, Seq::empty(), false)
}

/// The display name of a template: its trimmed name, or its tool name
/// marked untitled.
pub open spec fn spec_display_name(t: TemplateFileV) -> Seq<char> {
    if spec_trim(t.name).len() == 0 {
        t.id + " (untitled)"@
    } else {
        spec_trim(t.name)
    }
}

/// The description under which a template is exposed: its trimmed
/// description, or a rendering hint built from the display name.
pub open spec fn spec_tool_description(t: TemplateFileV) -> Seq<char> {
    if spec_trim(t.description).len() == 0 {
        "Render the "@ + spec_display_name(t) + " template."@
    } else {
        spec_trim(t.description)
    }
}

/// The model of a [`TemplateTool`].
pub struct TemplateToolV {
    pub template: TemplateFileV,
    pub tool_name: Seq<char>,
    pub display_name: Seq<char>,
    pub description: Seq<char>,
    pub schema: JsonValueV,
}

/// What a template's tool looks like: named by the template's id, described
/// by its prose, with the schema of its arguments.
pub open spec fn spec_tool_of(t: TemplateFileV) -> TemplateToolV {
    TemplateToolV {
        template: t,
        tool_name: t.id,
        display_name: spec_display_name(t),
        description: spec_tool_description(t),
        schema: spec_args_schema(t.args),
    }
}

/// One file template exposed as a callable tool.
#[derive(Debug)]
pub struct TemplateTool {
    template: TemplateFile,
    tool_name: String,
    display_name: String,
    description: String,
    schema: JsonValue,
}

impl View for TemplateTool {
    type V = TemplateToolV;

    closed spec fn view(&self) -> TemplateToolV {
        TemplateToolV {
            template: self.template@,
            tool_name: self.tool_name@,
            display_name: self.display_name@,
            description: self.description@,
            schema: self.schema@,
        }
    }
}

impl TemplateTool {
    /// Build the tool of a file template; the template's id is the tool
    /// name.
    pub fn from_template(template: TemplateFile) -> (r: TemplateTool)
        ensures
            r@ == spec_tool_of(template@),
    {
        let tool_name = template.id.clone();
        let nc = str_chars(template.name.as_str());
        let nt = trim_chars(&nc);
        let display_name = if nt.len() == 0 {
            let mut d: Vec<char> = Vec::new();
            push_str_chars(&mut d, tool_name.as_str());
            push_str_chars(&mut d, " (untitled)");
            chars_string(&d)
        } else {
            chars_string(&nt)
        };
        let dc = str_chars(template.description.as_str());
        let dt = trim_chars(&dc);
        let description = if dt.len() == 0 {
            let mut d: Vec<char> = Vec::new();
            push_str_chars(&mut d, "Render the ");
            push_str_chars(&mut d, display_name.as_str());
            push_str_chars(&mut d, " template.");
            chars_string(&d)
        } else {
            chars_string(&dt)
        };
        let schema = args_schema(&template.args);
        TemplateTool { template, tool_name, display_name, description, schema }
    }

    /// The name under which the tool is exposed: the template's id.
    pub fn tool_name(&self) -> (r: &str)
        ensures
            r@ == self@.tool_name,
    {
        self.tool_name.as_str()
    }

    /// The human-readable display name.
    pub fn display_name(&self) -> (r: &str)
        ensures
            r@ == self@.display_name,
    {
        self.display_name.as_str()
    }

    /// The tool's description.
    pub fn description(&self) -> (r: &str)
        ensures
            r@ == self@.description,
    {
        self.description.as_str()
    }

    /// The JSON schema of the tool's arguments.
    pub fn schema(&self) -> (r: &JsonValue)
        ensures
            r@ == self@.schema,
    {
        &self.schema
    }

    /// The wrapped template.
    pub fn template(&self) -> (r: &TemplateFile)
        ensures
            r@ == self@.template,
    {
        &self.template
    }

    /// One line of the usage instructions: tool name and display name, the
    /// description when there is one, and the declared arguments with
    /// optional ones marked by `?`.
    pub fn instructions_line(&self) -> (r: String)
        ensures
            r@ == spec_instructions_line(self@),
    {
        let mut out: Vec<char> = Vec::new();
        push_str_chars(&mut out, "- ");
        push_str_chars(&mut out, self.tool_name.as_str());
        push_str_chars(&mut out, " \u{2192} ");
        push_str_chars(&mut out, self.display_name.as_str());
        let dc = str_chars(self.template.description.as_str());
        let dt = trim_chars(&dc);
        if dt.len() > 0 {
            push_str_chars(&mut out, " \u{2014} ");
            push_chars(&mut out, &dt);
        }
        if self.template.args.len() > 0 {
            push_str_chars(&mut out, " (args: ");
            let ghost argsv = self@.template.args;
            let mut joined: Vec<char> = Vec::new();
            let n = self.template.args.len();
            let mut i: usize = 0;
            while i < n
                invariant
                    0 <= i <= n,
                    n == argsv.len(),
                    argsv == self@.template.args,
                    joined@ == spec_join_comma(spec_arg_tokens(argsv.take(i as int))),
                decreases n - i,
            {
                proof {
                    assert(argsv[i as int] == self.template.args@[i as int]@);
                }
                if i > 0 {
                    push_str_chars(&mut joined, ", ");
                }
                push_str_chars(&mut joined, self.template.args[i].name.as_str());
                if !self.template.args[i].required {
                    push_str_chars(&mut joined, "?");
                }
                proof {
                    let t = spec_arg_tokens(argsv.take(i + 1));
                    lemma_arg_tokens_index(argsv.take(i + 1));
                    lemma_arg_tokens_index(argsv.take(i as int));
                    assert(argsv.take(i + 1).drop_last() =~= argsv.take(i as int));
                    assert(t.drop_last() =~= spec_arg_tokens(argsv.take(i as int)));
                    if i == 0 {
                        assert(joined@ =~= spec_join_comma(t));
                    } else {
                        assert(joined@ =~= spec_join_comma(
                            spec_arg_tokens(argsv.take(i as int)),
                        ) + ", "@ + t.last());
                    }
                }
                i = i + 1;
            }
            proof {
                assert(argsv.take(n as int) =~= argsv);
            }
            push_chars(&mut out, &joined);
            push_str_chars(&mut out, ")");
        }
        chars_string(&out)
    }

    /// Sanitize an arbitrary display name into a tool-name shape: ASCII
    /// alphanumerics lowercased, other runs collapsed to single `_`
    /// separators, no separator at either end.
    pub fn sanitize_tool_name(name: &str) -> (r: String)
        ensures
            r@ == spec_sanitize(name@),
    {
        let cs = str_chars(name);
        let n = cs.len();
        let mut acc: Vec<char> = Vec::new();
        let mut sep = false;
        let mut i: usize = 0;
        while i < n
            invariant
                0 <= i <= n,
                n == cs@.len(),
                cs@ == name@,
                spec_sanitize(name@) == spec_sanitize_from(cs@, i as int, acc@, sep),
            decreases n - i,
        {
            let c = cs[i];
            if ('0' <= c && c <= '9') || ('a' <= c && c <= 'z') || ('A' <= c && c <= 'Z') {
                acc.push(ascii_lower(c));
                sep = false;
            } else if acc.len() > 0 && !sep {
                acc.push('_');
                sep = true;
            }
            i = i + 1;
        }
        if acc.len() > 0 && acc[acc.len() - 1] == '_' {
            acc.pop();
        }
        chars_string(&acc)
    }
}

/// The argument tokens of an instruction line: each name, with `?` marking
/// an optional argument.
pub open spec fn spec_arg_tokens(args: Seq<ArgV>) -> Seq<Seq<char>>
    decreases args.len(),
{
    if args.len() == 0 {
        Seq::empty()
    } else {
        spec_arg_tokens(args.drop_last()).push(
            if args.last().required {
                args.last().name
            } else {
                args.last().name + "?"@
            },
        )
    }
}

proof fn lemma_arg_tokens_index(args: Seq<ArgV>)
    ensures
        spec_arg_tokens(args).len() == args.len(),
        forall|i: int|
            0 <= i < args.len() ==> #[trigger] spec_arg_tokens(args)[i] == (if args[i].required {
                args[i].name
            } else {
                args[i].name + "?"@
            }),
    decreases args.len(),
{
    if args.len() > 0 {
        lemma_arg_tokens_index(args.drop_last());
    }
}

/// One line of the usage instructions of a tool.
pub open spec fn spec_instructions_line(t: TemplateToolV) -> Seq<char> {
    "- "@ + t.tool_name + " \u{2192} "@ + t.display_name + (if spec_trim(
        t.template.description,
    ).len() > 0 {
        " \u{2014} "@ + spec_trim(t.template.description)
    } else {
        Seq::empty()
    }) + (if t.template.args.len() > 0 {
        " (args: "@ + spec_join_comma(spec_arg_tokens(t.template.args)) + ")"@
    } else {
        Seq::empty()
    })
}

} // verus!
