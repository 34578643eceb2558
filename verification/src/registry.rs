//! The tools that a runtime offers, by name.
use vstd::prelude::*;
use crate::config::NativeToolConfig;
use crate::json::Json;
use crate::text::{
    chars_of, concat2, concat3, lemma_lex_irreflexive, lemma_lex_total, lemma_lex_transitive,
    lex_less, lex_lt, str_eq, string_views,
};
use crate::tools::{native_description_of, native_kind_for, native_tool_description, native_tool_kind, NativeToolKind};

verus! {

/// How a tool is executed.
#[derive(Debug)]
pub enum ToolExecutor {
    Native { kind: NativeToolKind, timeout_ms: u64 },
    Mcp { server_name: String, tool_name: String },
}

/// A tool that the runtime offers.
#[derive(Debug)]
pub struct ToolDefinition {
    pub name: String,
    pub description: String,
    pub input_schema: Json,
    pub source_label: String,
    pub executor: ToolExecutor,
}

/// The names of the definitions, in order.
pub open spec fn tool_names(defs: Seq<ToolDefinition>) -> Seq<Seq<char>> {
    Seq::new(defs.len(), |i: int| defs[i].name@)
}

/// Names in strictly increasing order, as a `BTreeMap` walks its keys.
pub open spec fn strictly_sorted(ns: Seq<Seq<char>>) -> bool {
    forall|i: int, j: int| 0 <= i < j < ns.len() ==> lex_lt(#[trigger] ns[i], #[trigger] ns[j])
}

/// The number of names that sort before `key`.
pub open spec fn rank(ns: Seq<Seq<char>>, key: Seq<char>) -> int
    decreases ns.len(),
{
    if ns.len() == 0 {
        0
    } else if lex_lt(ns.last(), key) {
        rank(ns.drop_last(), key) + 1
    } else {
        rank(ns.drop_last(), key)
    }
}

/// The warning for a second tool of a name already taken.
pub open spec fn duplicate_tool_warning(name: Seq<char>) -> Seq<char> {
    "tool `"@ + name + "` bị trùng tên trong runtime, giữ lại bản đầu tiên"@
}

/// The warning for a native tool that no executor handles.
pub open spec fn unknown_native_tool_warning(name: Seq<char>) -> Seq<char> {
    "native tool `"@ + name + "` chưa có executor Rust tương ứng, nên bị bỏ qua"@
}

/// The definition of a native tool: its name, the kind's description and
/// input schema, the label `native:<name>`, and a timeout of at least one
/// second.
pub open spec fn is_native_definition(
    d: ToolDefinition,
    name: Seq<char>,
    kind: NativeToolKind,
    timeout_ms: u64,
) -> bool {
    &&& d.name@ == name
    &&& d.description@ == native_description_of(kind)
    &&& d.input_schema@ == crate::tool_schemas::native_schema_model(kind)
    &&& d.source_label@ == "native:"@ + name
    &&& d.executor == ToolExecutor::Native {
        kind,
        timeout_ms: if timeout_ms < 1000 {
            1000
        } else {
            timeout_ms
        },
    }
}

/// In sorted names, those before `rank` sort before `key`, the others do not.
proof fn lemma_rank(ns: Seq<Seq<char>>, key: Seq<char>)
    requires
        strictly_sorted(ns),
    ensures
        0 <= rank(ns, key) <= ns.len(),
        forall|j: int| 0 <= j < rank(ns, key) ==> lex_lt(#[trigger] ns[j], key),
        forall|j: int| rank(ns, key) <= j < ns.len() ==> !lex_lt(#[trigger] ns[j], key),
    decreases ns.len(),
{
    if ns.len() > 0 {
        let init = ns.drop_last();
        assert(strictly_sorted(init));
        lemma_rank(init, key);
        if lex_lt(ns.last(), key) {
            assert forall|j: int| 0 <= j < init.len() implies lex_lt(#[trigger] init[j], key) by {
                assert(lex_lt(ns[j], ns[ns.len() - 1]));
                lemma_lex_transitive(init[j], ns.last(), key);
            }
            if rank(init, key) < init.len() {
                assert(lex_lt(init[rank(init, key)], key));
            }
            assert forall|j: int| 0 <= j < rank(ns, key) implies lex_lt(#[trigger] ns[j], key) by {
                if j < ns.len() - 1 {
                    assert(ns[j] == init[j]);
                }
            }
        } else {
            assert forall|j: int| 0 <= j < rank(ns, key) implies lex_lt(#[trigger] ns[j], key) by {
                assert(ns[j] == init[j]);
            }
            assert forall|j: int| rank(ns, key) <= j < ns.len() implies !lex_lt(#[trigger] ns[j], key) by {
                if j < ns.len() - 1 {
                    assert(ns[j] == init[j]);
                }
            }
        }
    }
}

/// The rank of a name lies within the names' bounds.
pub proof fn lemma_rank_bounds(ns: Seq<Seq<char>>, key: Seq<char>)
    ensures
        0 <= rank(ns, key) <= ns.len(),
    decreases ns.len(),
{
    if ns.len() > 0 {
        lemma_rank_bounds(ns.drop_last(), key);
    }
}

/// In sorted names, a name stands at most once, and where it stands is its rank.
proof fn lemma_sorted_index(ns: Seq<Seq<char>>, key: Seq<char>, i: int)
    requires
        strictly_sorted(ns),
        0 <= i < ns.len(),
        ns[i] == key,
    ensures
        rank(ns, key) == i,
{
    lemma_rank(ns, key);
    lemma_lex_irreflexive(key);
    if rank(ns, key) > i {
        assert(lex_lt(ns[i], key));
    } else if rank(ns, key) < i {
        let r = rank(ns, key);
        assert(lex_lt(ns[r], ns[i]));
        assert(!lex_lt(ns[r], key));
    }
}

/// Putting a name that is not there yet at its rank keeps the names sorted.
proof fn lemma_insert_sorted(ns: Seq<Seq<char>>, key: Seq<char>)
    requires
        strictly_sorted(ns),
        !ns.contains(key),
    ensures
        strictly_sorted(ns.insert(rank(ns, key), key)),
{
    lemma_rank(ns, key);
    let k = rank(ns, key);
    let n = ns.insert(k, key);
    if k < ns.len() {
        lemma_lex_total(ns[k], key);
        assert(ns[k] != key);
    }
    assert forall|i: int, j: int| 0 <= i < j < n.len() implies lex_lt(#[trigger] n[i], #[trigger] n[j]) by {
        if j < k {
        } else if j == k {
        } else if i == k {
            assert(n[j] == ns[j - 1]);
            if j - 1 > k {
                lemma_lex_transitive(key, ns[k], ns[j - 1]);
            }
        } else if i < k {
            assert(n[j] == ns[j - 1]);
            if j - 1 > k {
                lemma_lex_transitive(key, ns[k], ns[j - 1]);
            }
            lemma_lex_transitive(ns[i], key, ns[j - 1]);
        } else {
            assert(n[i] == ns[i - 1] && n[j] == ns[j - 1]);
        }
    }
}

/// A tool added under a name not yet taken keeps the names in order and is
/// the tool found under that name.
pub proof fn law_inserted_tool_is_found(defs: Seq<ToolDefinition>, d: ToolDefinition)
    requires
        strictly_sorted(tool_names(defs)),
        !tool_names(defs).contains(d.name@),
    ensures
        ({
            let n = defs.insert(rank(tool_names(defs), d.name@), d);
            &&& strictly_sorted(tool_names(n))
            &&& tool_names(n).contains(d.name@)
            &&& n[rank(tool_names(n), d.name@)] == d
        }),
{
    let ns = tool_names(defs);
    let k = rank(ns, d.name@);
    lemma_rank(ns, d.name@);
    lemma_insert_sorted(ns, d.name@);
    let n = defs.insert(k, d);
    assert(tool_names(n) =~= ns.insert(k, d.name@));
    assert(tool_names(n)[k] == d.name@);
    lemma_sorted_index(tool_names(n), d.name@, k);
}

/// Removing the tool just added under a name not yet taken gives back the
/// tools as they were.
pub proof fn law_remove_undoes_insert(defs: Seq<ToolDefinition>, d: ToolDefinition)
    requires
        strictly_sorted(tool_names(defs)),
        !tool_names(defs).contains(d.name@),
    ensures
        ({
            let n = defs.insert(rank(tool_names(defs), d.name@), d);
            n.remove(rank(tool_names(n), d.name@)) == defs
        }),
{
    let ns = tool_names(defs);
    let k = rank(ns, d.name@);
    lemma_rank(ns, d.name@);
    law_inserted_tool_is_found(defs, d);
    let n = defs.insert(k, d);
    assert(tool_names(n)[k] == d.name@);
    lemma_sorted_index(tool_names(n), d.name@, k);
    assert(n.remove(k) =~= defs);
}

/// The tools of a runtime, kept in name order with each name once, and the
/// warnings gathered while they were registered.
pub struct ToolRegistry {
    tools: Vec<ToolDefinition>,
    warnings: Vec<String>,
}

impl ToolRegistry {
    /// The definitions, in name order.
    pub closed spec fn defs(&self) -> Seq<ToolDefinition> {
        self.tools@
    }

    /// The warnings, in the order they were given.
    pub closed spec fn warning_texts(&self) -> Seq<Seq<char>> {
        string_views(self.warnings@)
    }

    /// The names stand in strictly increasing order.
    pub open spec fn wf(&self) -> bool {
        strictly_sorted(tool_names(self.defs()))
    }

    /// A registry with no tools and no warnings.
    pub fn new() -> (r: ToolRegistry)
        ensures
            r.wf(),
            r.defs() == Seq::<ToolDefinition>::empty(),
            r.warning_texts() == Seq::<Seq<char>>::empty(),
    {
        let r = ToolRegistry { tools: Vec::new(), warnings: Vec::new() };
        proof {
            assert(tool_names(r.defs()) =~= Seq::empty());
            assert(r.warning_texts() =~= Seq::empty());
        }
        r
    }

    /// The index of the tool named `name`, if there is one.
    fn index_of(&self, name: &str) -> (r: Option<usize>)
        requires
            self.wf(),
        ensures
            match r {
                Some(i) => i < self.defs().len() && self.defs()[i as int].name@ == name@,
                None => !tool_names(self.defs()).contains(name@),
            },
    {
        let mut i: usize = 0;
        while i < self.tools.len()
            invariant
                i <= self.tools@.len(),
                forall|k: int| 0 <= k < i ==> self.tools@[k].name@ != name@,
            decreases self.tools@.len() - i,
        {
            if str_eq(self.tools[i].name.as_str(), name) {
                return Some(i);
            }
            i = i + 1;
        }
        proof {
            if tool_names(self.defs()).contains(name@) {
                let k = choose|k: int| 0 <= k < tool_names(self.defs()).len() && tool_names(self.defs())[k] == name@;
                assert(self.tools@[k].name@ == name@);
            }
        }
        None
    }

    /// The rank of `name` among the names.
    fn rank_of(&self, name: &str) -> (r: usize)
        requires
            self.wf(),
        ensures
            r == rank(tool_names(self.defs()), name@),
    {
        let ghost ns = tool_names(self.defs());
        proof {
            lemma_rank(ns, name@);
        }
        let key = chars_of(name);
        let mut i: usize = 0;
        while i < self.tools.len()
            invariant
                ns == tool_names(self.defs()),
                0 <= rank(ns, name@) <= ns.len(),
                forall|j: int| 0 <= j < rank(ns, name@) ==> lex_lt(#[trigger] ns[j], name@),
                forall|j: int| rank(ns, name@) <= j < ns.len() ==> !lex_lt(#[trigger] ns[j], name@),
                key@ == name@,
                i <= self.tools@.len(),
                i <= rank(ns, name@),
            decreases self.tools@.len() - i,
        {
            let current = chars_of(self.tools[i].name.as_str());
            if !lex_less(&current, &key) {
                assert(!lex_lt(ns[i as int], name@));
                return i;
            }
            assert(lex_lt(ns[i as int], name@));
            i = i + 1;
        }
        i
    }

    /// Adds a tool. A second tool of a name already taken is not added; a
    /// warning says so, and the first stays.
    pub fn insert_definition(&mut self, definition: ToolDefinition)
        requires
            old(self).wf(),
        ensures
            final(self).wf(),
            tool_names(old(self).defs()).contains(definition.name@) ==> {
                &&& final(self).defs() == old(self).defs()
                &&& final(self).warning_texts() == old(self).warning_texts().push(
                    duplicate_tool_warning(definition.name@),
                )
            },
            !tool_names(old(self).defs()).contains(definition.name@) ==> {
                &&& final(self).defs() == old(self).defs().insert(
                    rank(tool_names(old(self).defs()), definition.name@),
                    definition,
                )
                &&& final(self).warning_texts() == old(self).warning_texts()
            },
    {
        match self.index_of(definition.name.as_str()) {
            Some(i) => {
                proof {
                    assert(tool_names(self.defs())[i as int] == definition.name@);
                }
                let warning = concat3(
                    "tool `",
                    definition.name.as_str(),
                    "` bị trùng tên trong runtime, giữ lại bản đầu tiên",
                );
                self.warnings.push(warning);
                proof {
                    assert(self.warning_texts() =~= old(self).warning_texts().push(
                        duplicate_tool_warning(definition.name@),
                    ));
                }
            },
            None => {
                let k = self.rank_of(definition.name.as_str());
                let ghost ns = tool_names(self.defs());
                let ghost name = definition.name@;
                proof {
                    lemma_rank(ns, name);
                    lemma_insert_sorted(ns, name);
                }
                self.tools.insert(k, definition);
                proof {
                    assert(tool_names(self.defs()) =~= ns.insert(k as int, name));
                }
            },
        }
    }

    /// Removes the tool named `name`, if there is one.
    pub fn remove_definition(&mut self, name: &str)
        requires
            old(self).wf(),
        ensures
            final(self).wf(),
            final(self).warning_texts() == old(self).warning_texts(),
            !tool_names(old(self).defs()).contains(name@) ==> final(self).defs() == old(self).defs(),
            tool_names(old(self).defs()).contains(name@) ==> final(self).defs() == old(self).defs().remove(
                rank(tool_names(old(self).defs()), name@),
            ),
            !tool_names(final(self).defs()).contains(name@),
    {
        let ghost ns = tool_names(self.defs());
        match self.index_of(name) {
            Some(i) => {
                proof {
                    lemma_sorted_index(ns, name@, i as int);
                }
                self.tools.remove(i);
                proof {
                    assert(tool_names(self.defs()) =~= ns.remove(i as int));
                    assert forall|a: int, b: int|
                        0 <= a < b < tool_names(self.defs()).len() implies lex_lt(
                        #[trigger] tool_names(self.defs())[a],
                        #[trigger] tool_names(self.defs())[b],
                    ) by {
                        if a >= i {
                            assert(tool_names(self.defs())[a] == ns[a + 1]);
                        }
                        if b >= i {
                            assert(tool_names(self.defs())[b] == ns[b + 1]);
                        }
                    }
                    if tool_names(self.defs()).contains(name@) {
                        let k = choose|k: int|
                            0 <= k < tool_names(self.defs()).len() && tool_names(self.defs())[k]
                                == name@;
                        lemma_lex_irreflexive(name@);
                        if k < i {
                            assert(lex_lt(ns[k], ns[i as int]));
                        } else {
                            assert(lex_lt(ns[i as int], ns[k + 1]));
                        }
                    }
                }
            },
            None => {},
        }
    }

    /// The tool named `name`, if there is one.
    pub fn get(&self, name: &str) -> (r: Option<&ToolDefinition>)
        requires
            self.wf(),
        ensures
            match r {
                Some(d) => tool_names(self.defs()).contains(name@) && *d == self.defs()[rank(
                    tool_names(self.defs()),
                    name@,
                )],
                None => !tool_names(self.defs()).contains(name@),
            },
    {
        match self.index_of(name) {
            Some(i) => {
                proof {
                    lemma_sorted_index(tool_names(self.defs()), name@, i as int);
                    assert(tool_names(self.defs())[i as int] == name@);
                }
                Some(&self.tools[i])
            },
            None => None,
        }
    }

    /// The definitions, in name order.
    pub fn definitions(&self) -> (r: &Vec<ToolDefinition>)
        ensures
            r@ == self.defs(),
    {
        &self.tools
    }

    /// The names of the tools, in order.
    pub fn available_tool_names(&self) -> (r: Vec<String>)
        ensures
            string_views(r@) == tool_names(self.defs()),
    {
        let mut out: Vec<String> = Vec::new();
        let mut i: usize = 0;
        while i < self.tools.len()
            invariant
                i <= self.tools@.len(),
                out@.len() == i,
                string_views(out@) == tool_names(self.defs()).take(i as int),
            decreases self.tools@.len() - i,
        {
            out.push(self.tools[i].name.clone());
            proof {
                assert(out@[i as int]@ == tool_names(self.defs())[i as int]);
                assert(string_views(out@) =~= tool_names(self.defs()).take(i + 1));
            }
            i = i + 1;
        }
        proof {
            assert(tool_names(self.defs()).take(i as int) =~= tool_names(self.defs()));
        }
        out
    }

    /// The warnings gathered so far.
    pub fn initialization_warnings(&self) -> (r: &Vec<String>)
        ensures
            string_views(r@) == self.warning_texts(),
    {
        &self.warnings
    }

    /// Adds a warning.
    pub fn add_warning(&mut self, warning: String)
        ensures
            final(self).defs() == old(self).defs(),
            final(self).warning_texts() == old(self).warning_texts().push(warning@),
    {
        self.warnings.push(warning);
        proof {
            assert(self.warning_texts() =~= old(self).warning_texts().push(warning@));
        }
    }

    /// Registers the native tool that `config` names. A name that no native
    /// executor handles gives a warning and no tool; a known one gives a tool
    /// with that tool's description and input schema, labelled
    /// `native:<name>`, that times out after at least one second.
    pub fn register_native_tool(&mut self, config: &NativeToolConfig)
        requires
            old(self).wf(),
        ensures
            final(self).wf(),
            native_kind_for(config.name@) is None ==> {
                &&& final(self).defs() == old(self).defs()
                &&& final(self).warning_texts() == old(self).warning_texts().push(
                    unknown_native_tool_warning(config.name@),
                )
            },
            native_kind_for(config.name@) is Some && tool_names(old(self).defs()).contains(
                config.name@,
            ) ==> {
                &&& final(self).defs() == old(self).defs()
                &&& final(self).warning_texts() == old(self).warning_texts().push(
                    duplicate_tool_warning(config.name@),
                )
            },
            native_kind_for(config.name@) is Some && !tool_names(old(self).defs()).contains(
                config.name@,
            ) ==> {
                let k = rank(tool_names(old(self).defs()), config.name@);
                &&& final(self).defs().len() == old(self).defs().len() + 1
                &&& final(self).defs() == old(self).defs().insert(k, final(self).defs()[k])
                &&& is_native_definition(
                    final(self).defs()[k],
                    config.name@,
                    native_kind_for(config.name@)->0,
                    config.timeout_ms,
                )
                &&& final(self).warning_texts() == old(self).warning_texts()
            },
    {
        match native_tool_kind(config.name.as_str()) {
            None => {
                let warning = concat3(
                    "native tool `",
                    config.name.as_str(),
                    "` chưa có executor Rust tương ứng, nên bị bỏ qua",
                );
                self.add_warning(warning);
            },
            Some(kind) => {
                let definition = ToolDefinition {
                    name: config.name.clone(),
                    description: native_tool_description(kind).to_string(),
                    input_schema: crate::tool_schemas::native_tool_schema(kind),
                    source_label: concat2("native:", config.name.as_str()),
                    executor: ToolExecutor::Native {
                        kind,
                        timeout_ms: if config.timeout_ms < 1000 {
                            1000
                        } else {
                            config.timeout_ms
                        },
                    },
                };
                proof {
                    lemma_rank(tool_names(self.defs()), config.name@);
                }
                self.insert_definition(definition);
            },
        }
    }
}

} // verus!
