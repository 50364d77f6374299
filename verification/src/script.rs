//! The boundary to the scripting context.
//!
//! One Lua state lives as long as the process and is shared by all levels: a
//! metadata block runs in it, the declarations of the block are read back from
//! its globals at once, and captured values are written to its globals later.
//! Globals are never reset, so what one level leaves behind is visible to the
//! next; that is intended.
//!
//! What a script does depends on the state it runs in, on the clock and on the
//! machine, so nothing is promised of what the calls return. The outcome
//! is handed on as plain data, and the rules are applied to that data.

use mlua::Lua;
use vstd::prelude::*;

verus! {

/// `mlua::Lua`, the scripting context. The verifier sees nothing inside it.
#[verifier::external_type_specification]
#[verifier::external_body]
pub struct ExLua(mlua::Lua);

/// `mlua::Error`, an error of the scripting engine. The verifier sees nothing
/// inside it.
#[verifier::external_type_specification]
#[verifier::external_body]
pub struct ExLuaError(mlua::Error);

/// What running a metadata block and reading its declarations came to.
#[derive(Clone, Debug, PartialEq, Eq)]
pub enum MetadataOutcome {
    /// The block did not run to its end; the text is the engine's message.
    Fault(String),
    /// The block ran, and no global `completion` can be read as a string.
    NoCompletion,
    /// The block ran and declared a completion rule. `captures` holds the
    /// entries of the global table `capture` in the order the engine walked
    /// them; it is `None` where there is no such table, or where one of its
    /// entries is no pair of strings.
    Declared { completion: String, captures: Option<Vec<(String, String)>> },
}

/// The view of a [`MetadataOutcome`].
pub enum MetadataOutcomeView {
    Fault(Seq<char>),
    NoCompletion,
    Declared { completion: Seq<char>, captures: Option<Seq<(Seq<char>, Seq<char>)>> },
}

/// The views of a sequence of pairs of strings.
pub open spec fn pair_views(pairs: Seq<(String, String)>) -> Seq<(Seq<char>, Seq<char>)> {
    Seq::new(pairs.len(), |i: int| (pairs[i].0@, pairs[i].1@))
}

impl View for MetadataOutcome {
    type V = MetadataOutcomeView;

    open spec fn view(&self) -> MetadataOutcomeView {
        match self {
            MetadataOutcome::Fault(message) => MetadataOutcomeView::Fault(message@),
            MetadataOutcome::NoCompletion => MetadataOutcomeView::NoCompletion,
            MetadataOutcome::Declared { completion, captures } => MetadataOutcomeView::Declared {
                completion: completion@,
                captures: match captures {
                    Some(pairs) => Some(pair_views(pairs@)),
                    None => None,
                },
            },
        }
    }
}

/// A write to the globals of the scripting context that the engine refused.
#[derive(Clone, Debug, PartialEq, Eq)]
pub struct BindingError {
    /// The name of the global.
    pub name: String,
    /// The engine's message.
    pub message: String,
}

/// Runs `code` as a chunk: `mlua::Lua::load`, then `mlua::Chunk::exec`.
/// Nothing is claimed of the result.
#[verifier::external_body]
fn lua_exec(lua: &Lua, code: &str) -> (r: Result<(), mlua::Error>) {
    lua.load(code).exec()
}

/// Reads the global `name` as a string: `mlua::Lua::globals`, then
/// `mlua::Table::get`. Nothing is claimed of the result.
#[verifier::external_body]
fn lua_global_string(lua: &Lua, name: &str) -> (r: Result<String, mlua::Error>) {
    lua.globals().get::<String>(name)
}

/// Reads the global `name` as a table and collects its entries as pairs of
/// strings: `mlua::Table::get`, then `mlua::Table::pairs`. Nothing is claimed
/// of the result, nor of the order of the pairs.
#[verifier::external_body]
fn lua_global_pairs(lua: &Lua, name: &str) -> (r: Result<Vec<(String, String)>, mlua::Error>) {
    lua.globals().get::<mlua::Table>(name)?.pairs::<String, String>().collect()
}

/// Sets the global `name` to the string `value`: `mlua::Lua::globals`, then
/// `mlua::Table::set`. Nothing is claimed of the result.
#[verifier::external_body]
fn lua_set_global(lua: &Lua, name: &str, value: &str) -> (r: Result<(), mlua::Error>) {
    lua.globals().set(name, value)
}

/// The message of an error of the engine, as its `Display` impl writes it.
/// Nothing is claimed of the text.
#[verifier::external_body]
fn lua_error_message(error: &mlua::Error) -> (r: String) {
    format!("{}", error)
}

/// Reads the entries of the global table `capture` as pairs of a name and a
/// pattern, or `None` where the engine cannot give them: the table is
/// missing, or it cannot be read as pairs of strings. What the engine answers
/// is handed on as it is; what it means for the level is for
/// `level::assembled` to say.
pub(crate) fn extract_captures(lua: &Lua) -> (pairs: Option<Vec<(String, String)>>) {
    match lua_global_pairs(lua, "capture") {
        Ok(pairs) => Some(pairs),
        Err(_) => None,
    }
}

/// Runs a metadata block in the scripting context and reads what it declared,
/// before anything else can run there. The globals are read only once the
/// block has run to its end, and the captures only once there is a completion
/// rule. Each answer of the engine is handed on as plain data, with nothing
/// decided here: which level or error comes of it is for `level::assembled`
/// to say.
pub(crate) fn read_metadata(lua: &Lua, code: &str) -> (outcome: MetadataOutcome) {
    match lua_exec(lua, code) {
        Err(error) => MetadataOutcome::Fault(lua_error_message(&error)),
        Ok(_) => match lua_global_string(lua, "completion") {
            Err(_) => MetadataOutcome::NoCompletion,
            Ok(completion) => {
                let captures = extract_captures(lua);
                MetadataOutcome::Declared { completion, captures }
            },
        },
    }
}

/// Publishes a captured value as the global `name` of the scripting context.
pub(crate) fn bind_global(lua: &Lua, name: &str, value: &str) -> (r: Result<(), BindingError>)
    ensures
        r matches Err(e) ==> e.name@ == name@,
{
    match lua_set_global(lua, name, value) {
        Ok(_) => Ok(()),
        Err(error) => Err(
            BindingError { name: name.to_owned(), message: lua_error_message(&error) },
        ),
    }
}

} // verus!
