//! The catalog model: one `Action` maps a task name to the tools that perform
//! it, and a `Tools` value is one ordered catalog of actions (built-in or
//! user-supplied). This module also loads the two catalogs for one invocation.

use vstd::prelude::*;

use crate::codec::{parse_catalog, parsed_model, parses_to, text_parses, LoadError};

verus! {

/// One task category: a human-readable name and the executables that perform
/// it, in catalog-authored order. Tool names need not be distinct and the list
/// may be empty.
pub struct Action {
    action: String,
    tools: Vec<String>,
}

impl View for Action {
    type V = (Seq<char>, Seq<Seq<char>>);

    closed spec fn view(&self) -> Self::V {
        (self.action@, self.tools.deep_view())
    }
}

impl DeepView for Action {
    type V = (Seq<char>, Seq<Seq<char>>);

    open spec fn deep_view(&self) -> Self::V {
        self@
    }
}

impl Action {
    pub fn new(action: String, tools: Vec<String>) -> (a: Action)
        ensures
            a@ == (action@, tools.deep_view()),
    {
        Action { action, tools }
    }

    /// The action's name.
    pub fn action(&self) -> (r: &str)
        ensures
            r@ == self@.0,
    {
        self.action.as_str()
    }

    /// The action's tool names, in catalog-authored order.
    pub fn tools(&self) -> (r: &Vec<String>)
        ensures
            r.deep_view() == self@.1,
    {
        &self.tools
    }
}

impl Clone for Action {
    fn clone(&self) -> (r: Self)
        ensures
            r@ == self@,
    {
        let r = Action { action: self.action.clone(), tools: self.tools.clone() };
        proof {
            assert(r.tools.deep_view() =~= self.tools.deep_view());
        }
        r
    }
}

/// One catalog: an ordered sequence of actions from a single source.
pub struct Tools {
    actions: Vec<Action>,
}

impl View for Tools {
    type V = Seq<(Seq<char>, Seq<Seq<char>>)>;

    closed spec fn view(&self) -> Self::V {
        self.actions.deep_view()
    }
}

impl Tools {
    pub fn new(actions: Vec<Action>) -> (t: Tools)
        ensures
            t@ == actions.deep_view(),
    {
        Tools { actions }
    }

    /// The catalog's actions, in source order.
    pub fn actions(&self) -> (r: &Vec<Action>)
        ensures
            r.deep_view() == self@,
    {
        &self.actions
    }

    /// Gives up the catalog and hands its actions out, in source order.
    pub fn into_actions(self) -> (r: Vec<Action>)
        ensures
            r.deep_view() == self@,
    {
        self.actions
    }
}

/// What reading the user catalog file produced. The read itself is the
/// caller's: this library only decides what each outcome means.
pub enum UserSource {
    /// The file exists and was read whole.
    Found(String),
    /// There is no file at the resolved path.
    Missing,
    /// The file exists but could not be read; carries the reader's message.
    Unreadable(String),
}

/// The built-in catalog, fixed at build time.
pub open spec fn builtin_text() -> Seq<char> {
    "actions = [ { action = \"compress files\", tools = [\"zip\", \"tar\", \"gzip\"] } ]"@
}

/// The TOML text of the built-in catalog.
pub fn builtin_catalog_text() -> (r: &'static str)
    ensures
        r@ == builtin_text(),
{
    "actions = [ { action = \"compress files\", tools = [\"zip\", \"tar\", \"gzip\"] } ]"
}

/// What loading a user source owes: a missing file means the empty catalog, an
/// unreadable file means an I/O fault carrying the reader's message, and a
/// read file must parse as a catalog, exactly as `parses_to` says.
pub open spec fn user_load_outcome(source: UserSource, r: Result<Tools, LoadError>) -> bool {
    match source {
        UserSource::Found(c) => parses_to(c@, r),
        UserSource::Missing => r matches Ok(t) && t@ == Seq::<(Seq<char>, Seq<Seq<char>>)>::empty(),
        UserSource::Unreadable(m) => r matches Err(e) && (e matches LoadError::Io(mm) && mm@
            == m@),
    }
}

/// Whether loading this user source succeeds.
pub open spec fn user_loads(source: UserSource) -> bool {
    match source {
        UserSource::Found(c) => text_parses(c@),
        UserSource::Missing => true,
        UserSource::Unreadable(_) => false,
    }
}

/// The user catalog's model; meaningful when `user_loads`.
pub open spec fn user_model(source: UserSource) -> Seq<(Seq<char>, Seq<Seq<char>>)>
    recommends
        user_loads(source),
{
    match source {
        UserSource::Found(c) => parsed_model(c@),
        _ => Seq::empty(),
    }
}

/// The built-in catalog. Its text is fixed at build time and well-formed, so a
/// fault here is a programming error, not a user-facing condition: the result
/// is exactly what parsing the built-in text yields.
pub fn default_tools() -> (r: Result<Tools, LoadError>)
    ensures
        parses_to(builtin_text(), r),
{
    parse_catalog(builtin_catalog_text())
}

/// The user catalog for one invocation: a missing file is no fault and means
/// an empty catalog; an unreadable file is reported as an I/O fault; the
/// content of a readable file must parse as a catalog.
pub fn user_tools(source: UserSource) -> (r: Result<Tools, LoadError>)
    ensures
        user_load_outcome(source, r),
{
    match source {
        UserSource::Found(content) => parse_catalog(content.as_str()),
        UserSource::Missing => {
            let empty: Vec<Action> = Vec::new();
            proof {
                assert(empty.deep_view() =~= Seq::<(Seq<char>, Seq<Seq<char>>)>::empty());
            }
            Ok(Tools::new(empty))
        },
        UserSource::Unreadable(m) => Err(LoadError::Io(m)),
    }
}

/// Both catalogs for one invocation: the built-in one, then the user's, with
/// no merging. Success is owed exactly when both load; a fault is the
/// built-in parse's, or the user load's once the built-in text has parsed.
pub fn tools(user: UserSource) -> (r: Result<(Tools, Tools), LoadError>)
    ensures
        match r {
            Ok(p) => parses_to(builtin_text(), Ok(p.0)) && user_load_outcome(user, Ok(p.1)),
            Err(e) => parses_to(builtin_text(), Err(e)) || (text_parses(builtin_text())
                && user_load_outcome(user, Err(e))),
        },
{
    let builtin = match default_tools() {
        Ok(t) => t,
        Err(e) => {
            return Err(e);
        },
    };
    match user_tools(user) {
        Ok(u) => Ok((builtin, u)),
        Err(e) => Err(e),
    }
}

/// The default user-catalog path. It is used literally: no home-directory
/// expansion is performed on it.
pub open spec fn default_tool_path() -> Seq<char> {
    "~/.tools.toml"@
}

/// The path of the user catalog file: the caller's choice if one was given,
/// the literal default path otherwise.
pub fn resolve_tool_path(tool_file: Option<String>) -> (r: String)
    ensures
        match tool_file {
            Some(p) => r@ == p@,
            None => r@ == default_tool_path(),
        },
{
    match tool_file {
        Some(p) => p,
        None => "~/.tools.toml".to_owned(),
    }
}

} // verus!
