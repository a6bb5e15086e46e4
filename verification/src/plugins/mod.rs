//! The tools the LLM may call, and the plugins that offer them.
use vstd::prelude::*;

use crate::error::BotError;
use crate::json::{json_string, obj2, obj3, jstr, Json, JsonValue};

pub mod home_assistant;
pub mod lm_studio;
pub mod mcp;
pub mod whisper;

verus! {

/// A function that a plugin offers to the LLM.
#[derive(Debug)]
pub struct FunctionDef {
    pub name: String,
    pub description: String,
    /// The JSON Schema of its parameters.
    pub parameters: Json,
}

pub struct FunctionDefView {
    pub name: Seq<char>,
    pub description: Seq<char>,
    pub parameters: JsonValue,
}

impl View for FunctionDef {
    type V = FunctionDefView;

    open spec fn view(&self) -> FunctionDefView {
        FunctionDefView {
            name: self.name@,
            description: self.description@,
            parameters: self.parameters@,
        }
    }
}

/// The models of a sequence of function definitions.
pub open spec fn defs_view(defs: Seq<FunctionDef>) -> Seq<FunctionDefView> {
    defs.map_values(|d: FunctionDef| d@)
}

impl Clone for FunctionDef {
    fn clone(&self) -> (r: Self)
        ensures
            r@ == self@,
    {
        FunctionDef {
            name: self.name.clone(),
            description: self.description.clone(),
            parameters: self.parameters.clone(),
        }
    }
}

/// The OpenAI-compatible tool object that announces `f` to the LLM.
pub open spec fn openai_tool(f: FunctionDefView) -> JsonValue {
    JsonValue::Object(
        seq![
            ("type"@, jstr("function"@)),
            (
                "function"@,
                JsonValue::Object(
                    seq![
                        ("name"@, jstr(f.name)),
                        ("description"@, jstr(f.description)),
                        ("parameters"@, f.parameters),
                    ],
                ),
            ),
        ],
    )
}

/// A function is announced to the LLM as a tool of type `function` with the
/// function's name, description and parameter schema.
pub proof fn lemma_openai_tool_fields(f: FunctionDefView)
    ensures
        openai_tool(f).field("type"@) == jstr("function"@),
        openai_tool(f).field("function"@).field("name"@) == jstr(f.name),
        openai_tool(f).field("function"@).field("description"@) == jstr(f.description),
        openai_tool(f).field("function"@).field("parameters"@) == f.parameters,
{
    reveal_strlit("type");
    reveal_strlit("function");
    reveal_strlit("name");
    reveal_strlit("description");
    reveal_strlit("parameters");
    let outer = openai_tool(f)->Object_0;
    let inner = outer[1].1->Object_0;
    assert(outer[0].0.len() != "function"@.len());
    assert(inner[0].0.len() != "description"@.len() && inner[0].0.len() != "parameters"@.len()
        && inner[1].0.len() != "parameters"@.len());
    crate::json::lemma_lookup_at(outer, "type"@, 0);
    crate::json::lemma_lookup_at(outer, "function"@, 1);
    crate::json::lemma_lookup_at(inner, "name"@, 0);
    crate::json::lemma_lookup_at(inner, "description"@, 1);
    crate::json::lemma_lookup_at(inner, "parameters"@, 2);
}

impl FunctionDef {
    /// The OpenAI-compatible tool object for the API request.
    pub fn to_openai_tool(&self) -> (tool: Json)
        ensures
            tool@ == openai_tool(self@),
    {
        let function = obj3(
            "name",
            json_string(self.name.as_str()),
            "description",
            json_string(self.description.as_str()),
            "parameters",
            self.parameters.clone(),
        );
        obj2("type", json_string("function"), "function", function)
    }
}

/// The words of a failed HTTP exchange with a service: its status and body.
pub open spec fn http_failure(status: Seq<char>, body: Seq<char>) -> Seq<char> {
    "HTTP "@ + status + ": "@ + body
}

/// The words of a failed HTTP exchange: `HTTP {status}: {body}`.
pub fn http_failure_text(status: &str, body: &str) -> (text: String)
    ensures
        text@ == http_failure(status@, body@),
{
    let mut text = String::from_str("HTTP ");
    text.append(status);
    text.append(": ");
    text.append(body);
    text
}

/// Whether one of `functions` is named `name`.
pub open spec fn offers(functions: Seq<FunctionDefView>, name: Seq<char>) -> bool {
    exists|j: int| 0 <= j < functions.len() && #[trigger] functions[j].name == name
}

/// The functions of all plugins, plugin after plugin.
pub open spec fn all_functions(plugins: Seq<Seq<FunctionDefView>>) -> Seq<FunctionDefView>
    decreases plugins.len(),
{
    if plugins.len() == 0 {
        Seq::empty()
    } else {
        all_functions(plugins.drop_last()) + plugins.last()
    }
}

/// The plugins, each known by the functions it offers, in the order in which
/// they were registered.
pub struct PluginRegistry {
    plugins: Vec<Vec<FunctionDef>>,
}

impl View for PluginRegistry {
    type V = Seq<Seq<FunctionDefView>>;

    closed spec fn view(&self) -> Seq<Seq<FunctionDefView>> {
        self.plugins@.map_values(|p: Vec<FunctionDef>| defs_view(p@))
    }
}

/// The outcome of dispatching a call of `name` over `plugins`: the first
/// plugin that offers a function of that name.
pub open spec fn dispatch(plugins: Seq<Seq<FunctionDefView>>, name: Seq<char>) -> Option<int> {
    if exists|i: int| 0 <= i < plugins.len() && offers(#[trigger] plugins[i], name) {
        Some(
            choose|i: int|
                0 <= i < plugins.len() && offers(#[trigger] plugins[i], name) && forall|j: int|
                    0 <= j < i ==> !offers(#[trigger] plugins[j], name),
        )
    } else {
        None
    }
}

impl PluginRegistry {
    pub fn new() -> (r: Self)
        ensures
            r@ == Seq::<Seq<FunctionDefView>>::empty(),
    {
        let r = PluginRegistry { plugins: Vec::new() };
        assert(r@ =~= Seq::<Seq<FunctionDefView>>::empty());
        r
    }

    /// Registers a plugin that offers `functions`.
    pub fn register(&mut self, functions: Vec<FunctionDef>)
        ensures
            final(self)@ == old(self)@.push(defs_view(functions@)),
    {
        let ghost before = self.plugins@;
        self.plugins.push(functions);
        assert(self@ =~= old(self)@.push(defs_view(functions@)));
    }

    /// The number of registered plugins.
    pub fn len(&self) -> (n: usize)
        ensures
            n == self@.len(),
    {
        self.plugins.len()
    }

    /// The functions of all plugins, plugin after plugin.
    pub fn get_all_functions(&self) -> (functions: Vec<FunctionDef>)
        ensures
            defs_view(functions@) == all_functions(self@),
    {
        let mut functions: Vec<FunctionDef> = Vec::new();
        let mut i: usize = 0;
        while i < self.plugins.len()
            invariant
                i <= self.plugins@.len(),
                defs_view(functions@) == all_functions(self@.take(i as int)),
            decreases self.plugins@.len() - i,
        {
            let plugin = &self.plugins[i];
            let ghost start = functions@;
            let mut j: usize = 0;
            while j < plugin.len()
                invariant
                    j <= plugin@.len(),
                    functions@.len() == start.len() + j,
                    defs_view(functions@) == defs_view(start) + defs_view(plugin@.take(j as int)),
                decreases plugin@.len() - j,
            {
                let f = plugin[j].clone();
                let ghost before = functions@;
                functions.push(f);
                proof {
                    assert(defs_view(functions@) =~= defs_view(before).push(f@));
                    assert(defs_view(plugin@.take(j + 1)) =~= defs_view(plugin@.take(j as int)).push(
                        plugin@[j as int]@,
                    ));
                }
                j = j + 1;
            }
            proof {
                assert(plugin@.take(j as int) =~= plugin@);
                assert(self@.take(i + 1).drop_last() =~= self@.take(i as int));
                assert(self@.take(i + 1).last() == defs_view(plugin@));
            }
            i = i + 1;
        }
        assert(self@.take(i as int) =~= self@);
        functions
    }

    /// Dispatches a call of `function_name`: the index of the first plugin
    /// that offers a function of that name, which is the one that executes it.
    pub fn execute(&self, function_name: &str) -> (r: Result<usize, BotError>)
        ensures
            match r {
                Ok(i) => dispatch(self@, function_name@) == Some(i as int),
                Err(e) => dispatch(self@, function_name@) is None && (e matches BotError::Config(m)
                    && m@ == "Function not found: "@ + function_name@),
            },
    {
        let name = String::from_str(function_name);
        let mut i: usize = 0;
        while i < self.plugins.len()
            invariant
                i <= self.plugins@.len(),
                self@.len() == self.plugins@.len(),
                name@ == function_name@,
                forall|k: int| 0 <= k < i ==> !offers(#[trigger] self@[k], function_name@),
            decreases self.plugins@.len() - i,
        {
            if offers_name(&self.plugins[i], &name) {
                proof {
                    assert(self@[i as int] == defs_view(self.plugins@[i as int]@));
                    lemma_dispatch_first(self@, function_name@, i as int);
                }
                return Ok(i);
            }
            assert(self@[i as int] == defs_view(self.plugins@[i as int]@));
            i = i + 1;
        }
        proof {
            lemma_dispatch_none(self@, function_name@);
        }
        let mut message = String::from_str("Function not found: ");
        message.append(function_name);
        Err(BotError::Config(message))
    }
}

/// Whether one of `functions` is named `name`.
fn offers_name(functions: &Vec<FunctionDef>, name: &String) -> (r: bool)
    ensures
        r == offers(defs_view(functions@), name@),
{
    let mut j: usize = 0;
    while j < functions.len()
        invariant
            j <= functions@.len(),
            forall|k: int| 0 <= k < j ==> functions@[k].name@ != name@,
        decreases functions@.len() - j,
    {
        if functions[j].name == *name {
            assert(defs_view(functions@)[j as int].name == name@);
            return true;
        }
        j = j + 1;
    }
    assert forall|k: int| 0 <= k < defs_view(functions@).len() implies #[trigger] defs_view(
        functions@,
    )[k].name != name@ by {
        assert(defs_view(functions@)[k] == functions@[k]@);
    }
    false
}

proof fn lemma_dispatch_first(plugins: Seq<Seq<FunctionDefView>>, name: Seq<char>, i: int)
    requires
        0 <= i < plugins.len(),
        offers(plugins[i], name),
        forall|k: int| 0 <= k < i ==> !offers(#[trigger] plugins[k], name),
    ensures
        dispatch(plugins, name) == Some(i),
{
    assert(0 <= i < plugins.len() && offers(plugins[i], name));
    let c = choose|c: int|
        0 <= c < plugins.len() && offers(#[trigger] plugins[c], name) && forall|d: int|
            0 <= d < c ==> !offers(#[trigger] plugins[d], name);
    assert(0 <= i < plugins.len() && offers(plugins[i], name) && forall|d: int|
        0 <= d < i ==> !offers(#[trigger] plugins[d], name));
    if c < i {
        assert(!offers(plugins[c], name));
    } else if c > i {
        assert(!offers(plugins[i], name));
    }
}

proof fn lemma_dispatch_none(plugins: Seq<Seq<FunctionDefView>>, name: Seq<char>)
    requires
        forall|k: int| 0 <= k < plugins.len() ==> !offers(#[trigger] plugins[k], name),
    ensures
        dispatch(plugins, name) is None,
{
}

} // verus!
