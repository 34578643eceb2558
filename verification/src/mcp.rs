//! The tools of MCP servers: what a server lists and how each becomes a tool
//! of the runtime.
use vstd::prelude::*;
use crate::arguments::array_items;
use crate::json::{
    as_str, field, get_field, members_model, object_of, Json, JsonModel,
};
use crate::registry::{rank, tool_names, ToolDefinition, ToolExecutor, ToolRegistry};
use crate::text::{char_count, concat2, concat3, trim, trim_str};
use crate::tools::{format_mcp_tool_name, slug};

verus! {

/// A tool that an MCP server lists.
#[derive(Debug)]
pub struct McpToolInfo {
    pub name: String,
    pub description: String,
    pub input_schema: Json,
}

/// The schema of a tool that lists none:
/// `{"additionalProperties": true, "properties": {}, "type": "object"}`.
pub open spec fn open_object_schema() -> JsonModel {
    JsonModel::Object(
        seq![
            ("additionalProperties"@, JsonModel::Bool(true)),
            ("properties"@, JsonModel::Object(Seq::empty())),
            ("type"@, JsonModel::Str("object"@)),
        ],
    )
}

/// The tool that an entry of a server's list stands for: one with a `name`
/// that is not blank (trimmed), its `description` or nothing, its
/// `inputSchema` or an open object schema.
pub open spec fn listed_tool(entry: JsonModel) -> Option<(Seq<char>, Seq<char>, JsonModel)> {
    match as_str(field(entry, "name"@)) {
        Some(n) => if trim(n).len() > 0 {
            Some(
                (
                    trim(n),
                    match as_str(field(entry, "description"@)) {
                        Some(d) => d,
                        None => Seq::empty(),
                    },
                    match field(entry, "inputSchema"@) {
                        Some(s) => s,
                        None => open_object_schema(),
                    },
                ),
            )
        } else {
            None
        },
        None => None,
    }
}

/// The tools that the entries stand for, in order.
pub open spec fn listed_tools(entries: Seq<JsonModel>) -> Seq<(Seq<char>, Seq<char>, JsonModel)>
    decreases entries.len(),
{
    if entries.len() == 0 {
        Seq::empty()
    } else {
        let rest = listed_tools(entries.drop_last());
        match listed_tool(entries.last()) {
            Some(t) => rest.push(t),
            None => rest,
        }
    }
}

/// The name, description and schema of each tool.
pub open spec fn infos_model(infos: Seq<McpToolInfo>) -> Seq<(Seq<char>, Seq<char>, JsonModel)> {
    Seq::new(infos.len(), |i: int| (infos[i].name@, infos[i].description@, infos[i].input_schema@))
}

/// The open object schema as a value.
fn open_object_schema_value() -> (r: Json)
    ensures
        r@ == open_object_schema(),
{
    let mut members: Vec<(String, Json)> = Vec::new();
    members.push(("additionalProperties".to_string(), Json::Bool(true)));
    members.push(("properties".to_string(), object_of(Vec::new())));
    members.push(("type".to_string(), Json::Str("object".to_string())));
    proof {
        assert(members_model(Seq::<(String, Json)>::empty()) =~= Seq::empty());
        assert(members_model(members@) =~= open_object_schema()->Object_0);
    }
    object_of(members)
}

/// The tools that a server's `tools/list` answer lists.
pub fn mcp_tools_from_listing(listing: &Json) -> (r: Vec<McpToolInfo>)
    ensures
        infos_model(r@) == listed_tools(array_items(field(listing@, "tools"@))),
{
    let mut out: Vec<McpToolInfo> = Vec::new();
    match get_field(listing, "tools") {
        Some(Json::Array(items)) => {
            let ghost model = Json::Array(*items)@->Array_0;
            let mut i: usize = 0;
            while i < items.len()
                invariant
                    model == Json::Array(*items)@->Array_0,
                    i <= items@.len(),
                    infos_model(out@) == listed_tools(model.take(i as int)),
                decreases items@.len() - i,
            {
                proof {
                    assert(model.take(i + 1).drop_last() =~= model.take(i as int));
                    assert(model.take(i + 1).last() == items@[i as int]@);
                }
                let entry = &items[i];
                match get_field(entry, "name") {
                    Some(Json::Str(n)) => {
                        let name = trim_str(n.as_str());
                        if char_count(name.as_str()) > 0 {
                            let description = match get_field(entry, "description") {
                                Some(Json::Str(d)) => d.clone(),
                                _ => String::new(),
                            };
                            let input_schema = match get_field(entry, "inputSchema") {
                                Some(s) => s.copy(),
                                None => open_object_schema_value(),
                            };
                            let ghost before = infos_model(out@);
                            out.push(McpToolInfo { name, description, input_schema });
                            proof {
                                assert(infos_model(out@) =~= before.push(
                                    listed_tool(items@[i as int]@)->0,
                                ));
                            }
                        }
                    },
                    _ => {},
                }
                i = i + 1;
            }
            proof {
                assert(model.take(items@.len() as int) =~= model);
            }
        },
        _ => {
            proof {
                assert(infos_model(out@) =~= Seq::empty());
            }
        },
    }
    out
}

/// The description of an MCP tool: its own, trimmed and marked with the
/// server, or a note that names the tool and the server where it has none.
pub open spec fn mcp_description(server: Seq<char>, tool: Seq<char>, description: Seq<char>) -> Seq<char> {
    if trim(description).len() == 0 {
        "MCP tool `"@ + tool + "` từ server `"@ + server + "`"@
    } else {
        "["@ + server + "] "@ + trim(description)
    }
}

/// Whether `d` is the runtime's tool for the listed tool: named
/// `<server>__<tool>` in slugs, described, labelled `mcp:<server>`, and run
/// by the server under the tool's own name.
pub open spec fn is_mcp_definition(d: ToolDefinition, server: Seq<char>, tool: (Seq<char>, Seq<char>, JsonModel)) -> bool {
    &&& d.name@ == slug(server, '_') + "__"@ + slug(tool.0, '_')
    &&& d.description@ == mcp_description(server, tool.0, tool.1)
    &&& d.input_schema@ == tool.2
    &&& d.source_label@ == "mcp:"@ + server
    &&& d.executor matches ToolExecutor::Mcp { server_name, tool_name } && server_name@ == server
        && tool_name@ == tool.0
}

/// The runtime's tool for a listed tool of a server.
pub fn mcp_tool_definition(server_name: &str, tool: &McpToolInfo) -> (r: ToolDefinition)
    ensures
        is_mcp_definition(r, server_name@, (tool.name@, tool.description@, tool.input_schema@)),
{
    let trimmed = trim_str(tool.description.as_str());
    let description = if char_count(trimmed.as_str()) == 0 {
        let mut d = concat3("MCP tool `", tool.name.as_str(), "` từ server `");
        crate::text::append_str(&mut d, server_name);
        crate::text::append_str(&mut d, "`");
        d
    } else {
        let mut d = concat3("[", server_name, "] ");
        crate::text::append_str(&mut d, trimmed.as_str());
        d
    };
    ToolDefinition {
        name: format_mcp_tool_name(server_name, tool.name.as_str()),
        description,
        input_schema: tool.input_schema.copy(),
        source_label: concat2("mcp:", server_name),
        executor: ToolExecutor::Mcp {
            server_name: server_name.to_string(),
            tool_name: tool.name.clone(),
        },
    }
}

/// The name that the runtime gives a listed tool of a server.
pub open spec fn mcp_name(server: Seq<char>, tool: Seq<char>) -> Seq<char> {
    slug(server, '_') + "__"@ + slug(tool, '_')
}

/// The names after an insertion are the names before with the new one.
proof fn lemma_insert_names(defs: Seq<ToolDefinition>, k: int, d: ToolDefinition)
    requires
        0 <= k <= defs.len(),
    ensures
        tool_names(defs.insert(k, d)) =~= tool_names(defs).insert(k, d.name@),
        forall|n: Seq<char>| #[trigger] tool_names(defs.insert(k, d)).contains(n) <==> (tool_names(defs).contains(n) || n == d.name@),
        forall|x: ToolDefinition| defs.contains(x) ==> #[trigger] defs.insert(k, d).contains(x),
{
    let n = defs.insert(k, d);
    assert(tool_names(n) =~= tool_names(defs).insert(k, d.name@));
    assert forall|x: Seq<char>| #[trigger] tool_names(n).contains(x) implies (tool_names(defs).contains(x) || x == d.name@) by {
        let i = choose|i: int| 0 <= i < tool_names(n).len() && tool_names(n)[i] == x;
        if i < k {
            assert(tool_names(defs)[i] == x);
        } else if i > k {
            assert(tool_names(defs)[i - 1] == x);
        }
    }
    assert forall|x: Seq<char>| (tool_names(defs).contains(x) || x == d.name@) implies #[trigger] tool_names(n).contains(x) by {
        if x == d.name@ {
            assert(tool_names(n)[k] == x);
        } else {
            let i = choose|i: int| 0 <= i < tool_names(defs).len() && tool_names(defs)[i] == x;
            if i < k {
                assert(tool_names(n)[i] == x);
            } else {
                assert(tool_names(n)[i + 1] == x);
            }
        }
    }
    assert forall|x: ToolDefinition| defs.contains(x) implies #[trigger] n.contains(x) by {
        let i = choose|i: int| 0 <= i < defs.len() && defs[i] == x;
        if i < k {
            assert(n[i] == x);
        } else {
            assert(n[i + 1] == x);
        }
    }
}

/// Adds the listed tools of a server to the registry, in order; a name
/// already taken keeps its first tool, as `insert_definition` says. After it,
/// the names are those there were and those of the listed tools; the tools
/// there were stay; and each new name belongs to the first listed tool of that
/// name.
pub fn register_mcp_tools(registry: &mut ToolRegistry, server_name: &str, tools: &Vec<McpToolInfo>)
    requires
        old(registry).wf(),
    ensures
        final(registry).wf(),
        forall|n: Seq<char>|
            #[trigger] tool_names(final(registry).defs()).contains(n) <==> (tool_names(
                old(registry).defs(),
            ).contains(n) || exists|j: int|
                0 <= j < tools@.len() && mcp_name(server_name@, #[trigger] tools@[j].name@) == n),
        forall|x: ToolDefinition| old(registry).defs().contains(x) ==> #[trigger] final(registry).defs().contains(x),
        forall|p: int|
            0 <= p < final(registry).defs().len() && !tool_names(old(registry).defs()).contains(
                #[trigger] final(registry).defs()[p].name@,
            ) ==> exists|j: int|
                0 <= j < tools@.len() && is_mcp_definition(
                    final(registry).defs()[p],
                    server_name@,
                    (tools@[j].name@, tools@[j].description@, tools@[j].input_schema@),
                ) && forall|j2: int|
                    0 <= j2 < j ==> mcp_name(server_name@, #[trigger] tools@[j2].name@)
                        != final(registry).defs()[p].name@,
{
    let ghost old_defs = registry.defs();
    proof {
        assert forall|p: int| 0 <= p < old_defs.len() implies tool_names(old_defs).contains(
            #[trigger] old_defs[p].name@,
        ) by {
            assert(tool_names(old_defs)[p] == old_defs[p].name@);
        }
    }
    let mut k: usize = 0;
    while k < tools.len()
        invariant
            registry.wf(),
            old_defs == old(registry).defs(),
            k <= tools@.len(),
            forall|n: Seq<char>|
                #[trigger] tool_names(registry.defs()).contains(n) <==> (tool_names(old_defs).contains(
                    n,
                ) || exists|j: int| 0 <= j < k && mcp_name(server_name@, #[trigger] tools@[j].name@) == n),
            forall|x: ToolDefinition| old_defs.contains(x) ==> #[trigger] registry.defs().contains(x),
            forall|p: int|
                0 <= p < registry.defs().len() && !tool_names(old_defs).contains(
                    #[trigger] registry.defs()[p].name@,
                ) ==> exists|j: int|
                    0 <= j < k && is_mcp_definition(
                        registry.defs()[p],
                        server_name@,
                        (tools@[j].name@, tools@[j].description@, tools@[j].input_schema@),
                    ) && forall|j2: int|
                        0 <= j2 < j ==> mcp_name(server_name@, #[trigger] tools@[j2].name@)
                            != registry.defs()[p].name@,
        decreases tools@.len() - k,
    {
        let d = mcp_tool_definition(server_name, &tools[k]);
        let ghost before = registry.defs();
        let ghost name = d.name@;
        let ghost dv = d;
        assert(name == mcp_name(server_name@, tools@[k as int].name@));
        registry.insert_definition(d);
        proof {
            let after = registry.defs();
            if tool_names(before).contains(name) {
                assert(after == before);
                assert forall|n: Seq<char>| #[trigger] tool_names(after).contains(n) <==> (tool_names(
                    old_defs,
                ).contains(n) || exists|j: int|
                    0 <= j < k + 1 && mcp_name(server_name@, #[trigger] tools@[j].name@) == n) by {
                    if n == name {
                        assert(mcp_name(server_name@, tools@[k as int].name@) == n);
                    }
                    if exists|j: int| 0 <= j < k + 1 && mcp_name(server_name@, #[trigger] tools@[j].name@) == n {
                        let j = choose|j: int| 0 <= j < k + 1 && mcp_name(server_name@, #[trigger] tools@[j].name@) == n;
                        if j < k {
                            assert(exists|j: int| 0 <= j < k && mcp_name(server_name@, #[trigger] tools@[j].name@) == n);
                        }
                    }
                }
                assert forall|p: int|
                    0 <= p < after.len() && !tool_names(old_defs).contains(
                        #[trigger] after[p].name@,
                    ) implies exists|j: int|
                        0 <= j < k + 1 && is_mcp_definition(
                            after[p],
                            server_name@,
                            (tools@[j].name@, tools@[j].description@, tools@[j].input_schema@),
                        ) && forall|j2: int|
                            0 <= j2 < j ==> mcp_name(server_name@, #[trigger] tools@[j2].name@)
                                != after[p].name@ by {
                    let j = choose|j: int|
                        0 <= j < k && is_mcp_definition(
                            before[p],
                            server_name@,
                            (tools@[j].name@, tools@[j].description@, tools@[j].input_schema@),
                        ) && forall|j2: int|
                            0 <= j2 < j ==> mcp_name(server_name@, #[trigger] tools@[j2].name@)
                                != before[p].name@;
                    assert(0 <= j < k + 1);
                }
            } else {
                let r = rank(tool_names(before), name);
                crate::registry::lemma_rank_bounds(tool_names(before), name);
                assert(after == before.insert(r, dv));
                lemma_insert_names(before, r, dv);
                assert forall|n: Seq<char>| #[trigger] tool_names(after).contains(n) <==> (tool_names(
                    old_defs,
                ).contains(n) || exists|j: int|
                    0 <= j < k + 1 && mcp_name(server_name@, #[trigger] tools@[j].name@) == n) by {
                    if n == name {
                        assert(mcp_name(server_name@, tools@[k as int].name@) == n);
                    }
                    if exists|j: int| 0 <= j < k + 1 && mcp_name(server_name@, #[trigger] tools@[j].name@) == n {
                        let j = choose|j: int| 0 <= j < k + 1 && mcp_name(server_name@, #[trigger] tools@[j].name@) == n;
                        if j < k {
                            assert(exists|j: int| 0 <= j < k && mcp_name(server_name@, #[trigger] tools@[j].name@) == n);
                        }
                    }
                }
                assert forall|p: int|
                    0 <= p < after.len() && !tool_names(old_defs).contains(
                        #[trigger] after[p].name@,
                    ) implies exists|j: int|
                        0 <= j < k + 1 && is_mcp_definition(
                            after[p],
                            server_name@,
                            (tools@[j].name@, tools@[j].description@, tools@[j].input_schema@),
                        ) && forall|j2: int|
                            0 <= j2 < j ==> mcp_name(server_name@, #[trigger] tools@[j2].name@)
                                != after[p].name@ by {
                    if p == r {
                        assert(after[p] == dv);
                        assert forall|j2: int| 0 <= j2 < k implies mcp_name(server_name@, #[trigger] tools@[j2].name@) != after[p].name@ by {
                            if mcp_name(server_name@, tools@[j2].name@) == name {
                                assert(tool_names(before).contains(name));
                            }
                        }
                        assert(is_mcp_definition(
                            after[p],
                            server_name@,
                            (tools@[k as int].name@, tools@[k as int].description@, tools@[k as int].input_schema@),
                        ));
                    } else {
                        let q = if p < r { p } else { p - 1 };
                        assert(after[p] == before[q]);
                        assert(tool_names(before)[q] == before[q].name@);
                        let j = choose|j: int|
                            0 <= j < k && is_mcp_definition(
                                before[q],
                                server_name@,
                                (tools@[j].name@, tools@[j].description@, tools@[j].input_schema@),
                            ) && forall|j2: int|
                                0 <= j2 < j ==> mcp_name(server_name@, #[trigger] tools@[j2].name@)
                                    != before[q].name@;
                        assert(0 <= j < k + 1);
                    }
                }
            }
        }
        k = k + 1;
    }
}

/// The warning for a server whose tools could not be listed.
pub fn mcp_list_failed_warning(server_name: &str, error: &str) -> (r: String)
    ensures
        r@ == "không thể list tools từ MCP `"@ + server_name@ + "`: "@ + error@,
{
    let mut w = concat3("không thể list tools từ MCP `", server_name, "`: ");
    crate::text::append_str(&mut w, error);
    w
}

/// The warning for a server that could not be started.
pub fn mcp_start_failed_warning(server_name: &str, error: &str) -> (r: String)
    ensures
        r@ == "không thể khởi tạo MCP `"@ + server_name@ + "`: "@ + error@,
{
    let mut w = concat3("không thể khởi tạo MCP `", server_name, "`: ");
    crate::text::append_str(&mut w, error);
    w
}

/// The error for a call of a server that is not running.
pub fn mcp_server_unavailable(server_name: &str) -> (r: String)
    ensures
        r@ == "MCP server `"@ + server_name@ + "` chưa sẵn sàng"@,
{
    concat3("MCP server `", server_name, "` chưa sẵn sàng")
}

/// How long a server may take to answer: its timeout, at least one second.
pub fn mcp_timeout_ms(timeout_ms: u64) -> (r: u64)
    ensures
        r == if timeout_ms < 1000 {
            1000
        } else {
            timeout_ms
        },
{
    if timeout_ms < 1000 {
        1000
    } else {
        timeout_ms
    }
}

} // verus!
