//! A table of models, what they can do, and when somebody last checked.

use crate::cost::pricing::{place, placed, read_required, required_text};
use crate::error::outcome;
use crate::json::{toml_parsed, trees, Json, Tree};
use crate::model::{ModelCapabilities, ModelId, Reach};
use crate::order::{increasing, precedes, Table};
use crate::text::{blank, followed_by, is_blank, same};
use vstd::prelude::*;

verus! {

/// One model's entry.
#[derive(Debug, Clone, PartialEq, Eq)]
pub struct Entry {
    /// The model name, as its provider spells it.
    pub id: String,
    /// How many tokens fit in one request.
    pub context_window: u32,
    /// The most tokens it will produce in one reply.
    pub max_output: u32,
    /// Whether it can be given tools.
    pub tools: bool,
    /// Whether it can be asked for output matching a schema.
    pub structured_output: bool,
    /// Whether repeated prefixes can be cached.
    pub prompt_caching: bool,
    /// Whether it can be asked to reason.
    pub thinking: bool,
    /// Whether a request may carry an image.
    pub images: bool,
    /// Whether the reply can be read as it arrives.
    pub streaming: bool,
    /// Where the facts on this row came from.
    ///
    /// Required. A capability table with no provenance is a set of claims, and the first
    /// time one of them is wrong there is no way to find out which of them still hold.
    pub source: String,
    /// When a person last checked this row, as `YYYY-MM-DD`.
    pub verified_at: String,
}

/// What an [`Entry`] holds.
#[verifier::ext_equal]
pub struct Row {
    pub id: Seq<char>,
    pub context_window: u32,
    pub max_output: u32,
    pub tools: bool,
    pub structured_output: bool,
    pub prompt_caching: bool,
    pub thinking: bool,
    pub images: bool,
    pub streaming: bool,
    pub source: Seq<char>,
    pub verified_at: Seq<char>,
}

impl DeepView for Entry {
    type V = Row;

    open spec fn deep_view(&self) -> Row {
        Row {
            id: self.id@,
            context_window: self.context_window,
            max_output: self.max_output,
            tools: self.tools,
            structured_output: self.structured_output,
            prompt_caching: self.prompt_caching,
            thinking: self.thinking,
            images: self.images,
            streaming: self.streaming,
            source: self.source@,
            verified_at: self.verified_at@,
        }
    }
}

/// A table of models for one reach.
///
/// The reach belongs to the table rather than the row, because the same model reached two
/// ways is two sets of capabilities. A vendor CLI usually cannot take a tool schema even
/// when the model behind it can.
#[derive(Debug, Clone, PartialEq)]
pub struct Registry {
    /// Which vendor these models belong to.
    pub provider: String,
    /// How these models are reached.
    pub reach: Reach,
    /// The models, by name.
    pub models: Table<Entry>,
}

/// What a [`Registry`] holds.
#[verifier::ext_equal]
pub struct Listing {
    pub provider: Seq<char>,
    pub reach: Reach,
    pub models: Map<Seq<char>, Row>,
}

/// The rows of a table of entries, by name.
pub open spec fn rows_of(models: Map<Seq<char>, Entry>) -> Map<Seq<char>, Row> {
    models.map_values(|entry: Entry| entry.deep_view())
}

impl DeepView for Registry {
    type V = Listing;

    open spec fn deep_view(&self) -> Listing {
        Listing {
            provider: self.provider@,
            reach: self.reach,
            models: rows_of(self.models@),
        }
    }
}

impl Listing {
    /// What a model can do, as reached this way.
    pub open spec fn capabilities(self, model: Seq<char>) -> Option<ModelCapabilities> {
        if self.models.contains_key(model) {
            let row = self.models[model];
            Some(
                ModelCapabilities {
                    context_window: row.context_window,
                    max_output: row.max_output,
                    tools: row.tools,
                    structured_output: row.structured_output,
                    prompt_caching: row.prompt_caching,
                    thinking: row.thinking,
                    images: row.images,
                    streaming: row.streaming,
                    reach: self.reach,
                },
            )
        } else {
            None
        }
    }
}

/// The reach that a table file names.
pub open spec fn reach_in(name: Seq<char>) -> Option<Reach> {
    if name == "FirstPartyApi"@ {
        Some(Reach::FirstPartyApi)
    } else if name == "CloudPartner"@ {
        Some(Reach::CloudPartner)
    } else if name == "PrivateEndpoint"@ {
        Some(Reach::PrivateEndpoint)
    } else if name == "LocalCli"@ {
        Some(Reach::LocalCli)
    } else if name == "SelfHosted"@ {
        Some(Reach::SelfHosted)
    } else {
        None
    }
}

/// Whether a document is a list or an object with nothing in it.
pub open spec fn is_hollow(tree: Tree) -> bool {
    tree == Tree::empty_object() || (tree matches Tree::Array(items) && items.len() == 0)
}

/// Whether a document is an object with this one member, and nothing in it.
pub open spec fn only_names(tree: Tree, name: Seq<char>) -> bool {
    &&& tree.get(name) matches Some(member) && is_hollow(member)
    &&& tree.without(name) == Tree::empty_object()
}

/// The reach that an object names by its one member.
pub open spec fn reach_of(tree: Tree) -> Option<Reach> {
    if only_names(tree, "FirstPartyApi"@) {
        Some(Reach::FirstPartyApi)
    } else if only_names(tree, "CloudPartner"@) {
        Some(Reach::CloudPartner)
    } else if only_names(tree, "PrivateEndpoint"@) {
        Some(Reach::PrivateEndpoint)
    } else if only_names(tree, "LocalCli"@) {
        Some(Reach::LocalCli)
    } else if only_names(tree, "SelfHosted"@) {
        Some(Reach::SelfHosted)
    } else {
        None
    }
}

/// The reach that a document must give: a text that names it, or an object whose one member does
/// and has nothing in it.
pub open spec fn reach_at(tree: Tree) -> Result<Reach, Seq<char>> {
    match tree.get("reach"@) {
        None => Err("no text is given for reach"@),
        Some(value) => match value.as_str() {
            Some(name) => match reach_in(name) {
                Some(reach) => Ok(reach),
                None => Err("no reach is named "@ + name),
            },
            None => match reach_of(value) {
                Some(reach) => Ok(reach),
                None => Err("no text is given for reach"@),
            },
        },
    }
}

/// A count of 32 bits that a document must give under this name.
pub open spec fn count_at(tree: Tree, name: Seq<char>) -> Result<u32, Seq<char>> {
    match tree.u64_at(name) {
        Some(n) => if n <= u32::MAX {
            Ok(n as u32)
        } else {
            Err("no count is given for "@ + name)
        },
        None => Err("no count is given for "@ + name),
    }
}

/// A yes or no that a document may give under this name: no where it does not.
pub open spec fn flag_at(tree: Tree, name: Seq<char>) -> Result<bool, Seq<char>> {
    match tree.get(name) {
        None => Ok(false),
        Some(value) => match value.as_bool() {
            Some(b) => Ok(b),
            None => Err("no yes or no is given for "@ + name),
        },
    }
}

/// The counts of a row: how much fits in a request and how much comes back.
pub open spec fn counts_in(tree: Tree) -> Result<(u32, u32), Seq<char>> {
    match (count_at(tree, "context_window"@), count_at(tree, "max_output"@)) {
        (Err(why), _) => Err(why),
        (_, Err(why)) => Err(why),
        (Ok(window), Ok(output)) => Ok((window, output)),
    }
}

/// What a row says that a model can do.
pub struct Abilities {
    pub tools: bool,
    pub structured_output: bool,
    pub prompt_caching: bool,
    pub thinking: bool,
    pub images: bool,
    pub streaming: bool,
}

/// The yes or no answers of a row.
pub open spec fn flags_in(tree: Tree) -> Result<Abilities, Seq<char>> {
    match (
        flag_at(tree, "tools"@),
        flag_at(tree, "structured_output"@),
        flag_at(tree, "prompt_caching"@),
        flag_at(tree, "thinking"@),
        flag_at(tree, "images"@),
        flag_at(tree, "streaming"@),
    ) {
        (Err(why), _, _, _, _, _) => Err(why),
        (_, Err(why), _, _, _, _) => Err(why),
        (_, _, Err(why), _, _, _) => Err(why),
        (_, _, _, Err(why), _, _) => Err(why),
        (_, _, _, _, Err(why), _) => Err(why),
        (_, _, _, _, _, Err(why)) => Err(why),
        (
            Ok(tools),
            Ok(structured_output),
            Ok(prompt_caching),
            Ok(thinking),
            Ok(images),
            Ok(streaming),
        ) => Ok(
            Abilities { tools, structured_output, prompt_caching, thinking, images, streaming },
        ),
    }
}

/// A row of a table file by the names of its members. One that is written as a list gives them
/// in this order, and what follows them is not read.
pub open spec fn row_by_name(row: Tree) -> Tree {
    match row {
        Tree::Array(items) => {
            let named = placed(Tree::empty_object(), "id"@, items, 0);
            let named = placed(named, "context_window"@, items, 1);
            let named = placed(named, "max_output"@, items, 2);
            let named = placed(named, "tools"@, items, 3);
            let named = placed(named, "structured_output"@, items, 4);
            let named = placed(named, "prompt_caching"@, items, 5);
            let named = placed(named, "thinking"@, items, 6);
            let named = placed(named, "streaming"@, items, 7);
            let named = placed(named, "source"@, items, 8);
            placed(named, "verified_at"@, items, 9)
        },
        other => other,
    }
}

/// One row of a table file.
pub open spec fn row_in(tree: Tree) -> Result<Row, Seq<char>> {
    members_in(row_by_name(tree))
}

/// One row of a table file, by the names of its members.
pub open spec fn members_in(tree: Tree) -> Result<Row, Seq<char>> {
    match (
        required_text(tree, "id"@),
        counts_in(tree),
        flags_in(tree),
        required_text(tree, "source"@),
        required_text(tree, "verified_at"@),
    ) {
        (Err(why), _, _, _, _) => Err(why),
        (_, Err(why), _, _, _) => Err(why),
        (_, _, Err(why), _, _) => Err(why),
        (_, _, _, Err(why), _) => Err(why),
        (_, _, _, _, Err(why)) => Err(why),
        (Ok(id), Ok(counts), Ok(flags), Ok(source), Ok(verified_at)) => Ok(
            Row {
                id,
                context_window: counts.0,
                max_output: counts.1,
                tools: flags.tools,
                structured_output: flags.structured_output,
                prompt_caching: flags.prompt_caching,
                thinking: flags.thinking,
                images: flags.images,
                streaming: flags.streaming,
                source,
                verified_at,
            },
        ),
    }
}

/// The rows of a table file, in order. The first that cannot be read refuses them all.
pub open spec fn rows_in(rows: Seq<Tree>) -> Result<Seq<Row>, Seq<char>>
    decreases rows.len(),
{
    if rows.len() == 0 {
        Ok(Seq::empty())
    } else {
        match (rows_in(rows.drop_last()), row_in(rows.last())) {
            (Err(why), _) => Err(why),
            (_, Err(why)) => Err(why),
            (Ok(first), Ok(row)) => Ok(first.push(row)),
        }
    }
}

/// Rows by name. A name that appears twice refuses them all.
pub open spec fn models_of(rows: Seq<Row>) -> Result<Map<Seq<char>, Row>, Seq<char>>
    decreases rows.len(),
{
    if rows.len() == 0 {
        Ok(Map::empty())
    } else {
        match models_of(rows.drop_last()) {
            Err(why) => Err(why),
            Ok(models) => if models.contains_key(rows.last().id) {
                Err(
                    rows.last().id
                        + " appears twice. One row would silently replace the other, and nothing would say which"@,
                )
            } else {
                Ok(models.insert(rows.last().id, rows.last()))
            },
        }
    }
}

/// The rows that a document gives under `model`: none where it has no such member.
pub open spec fn models_in(tree: Tree) -> Result<Map<Seq<char>, Row>, Seq<char>> {
    match tree.get("model"@) {
        None => Ok(Map::empty()),
        Some(value) => match value.as_array() {
            None => Err("model is not a list"@),
            Some(rows) => match rows_in(rows) {
                Err(why) => Err(why),
                Ok(rows) => models_of(rows),
            },
        },
    }
}

/// A table as a document gives it, before its rows are looked at.
pub open spec fn unchecked_listing(tree: Tree) -> Result<Listing, Seq<char>> {
    match (required_text(tree, "provider"@), reach_at(tree)) {
        (Err(why), _) => Err(why),
        (_, Err(why)) => Err(why),
        (Ok(provider), Ok(reach)) => match models_in(tree) {
            Err(why) => Err(why),
            Ok(models) => Ok(Listing { provider, reach, models }),
        },
    }
}

/// Whether nobody can tell later where a row came from or when it was checked.
pub open spec fn untraceable(row: Row) -> bool {
    is_blank(row.source) || is_blank(row.verified_at)
}

/// The message for a row without a source or a date.
pub open spec fn untraced(id: Seq<char>) -> Seq<char> {
    id
        + ": a row needs a source and a verification date, or nobody can tell later which of these numbers still hold"@
}

/// Whether this is the first row in name order that nobody can trace.
pub open spec fn first_untraceable(models: Map<Seq<char>, Row>, name: Seq<char>) -> bool {
    &&& models.contains_key(name)
    &&& untraceable(models[name])
    &&& forall|other: Seq<char>| #[trigger]
        models.contains_key(other) && untraceable(models[other]) ==> !precedes(other, name)
}

/// Whether every row can be traced.
pub open spec fn all_traceable(models: Map<Seq<char>, Row>) -> bool {
    forall|name: Seq<char>| #[trigger] models.contains_key(name) ==> !untraceable(models[name])
}

/// Whether a reading of a table from a document came to this: the table where it can be read
/// and every row traced, and otherwise the message that says what is wrong with it.
pub open spec fn registry_read(tree: Tree, read: Result<Listing, Seq<char>>) -> bool {
    match unchecked_listing(tree) {
        Err(why) => read == Err::<Listing, Seq<char>>(why),
        Ok(listing) => if all_traceable(listing.models) {
            read == Ok::<Listing, Seq<char>>(listing)
        } else {
            exists|name: Seq<char>| #[trigger]
                first_untraceable(listing.models, name) && read == Err::<Listing, Seq<char>>(
                    untraced(listing.models[name].id),
                )
        },
    }
}

/// Reads a count of 32 bits that a document must give under this name.
fn read_count(json: &Json, name: &str) -> (read: Result<u32, String>)
    ensures
        outcome(read) == count_at(json.tree(), name@),
{
    match json.u64_at(name) {
        Some(n) => if n <= 4_294_967_295 {
            Ok(n as u32)
        } else {
            Err(followed_by("no count is given for ", name))
        },
        None => Err(followed_by("no count is given for ", name)),
    }
}

/// Reads a yes or no that a document may give under this name.
fn read_flag(json: &Json, name: &str) -> (read: Result<bool, String>)
    ensures
        outcome(read) == flag_at(json.tree(), name@),
{
    match json.get(name) {
        None => Ok(false),
        Some(value) => match value.as_bool() {
            Some(b) => Ok(b),
            None => Err(followed_by("no yes or no is given for ", name)),
        },
    }
}

/// Names the members of a row that is written as a list.
fn name_members(items: &Vec<Json>) -> (named: Json)
    ensures
        named.tree() == row_by_name(Tree::Array(trees(items@))),
{
    let named = place(Json::object(), "id", items, 0);
    let named = place(named, "context_window", items, 1);
    let named = place(named, "max_output", items, 2);
    let named = place(named, "tools", items, 3);
    let named = place(named, "structured_output", items, 4);
    let named = place(named, "prompt_caching", items, 5);
    let named = place(named, "thinking", items, 6);
    let named = place(named, "streaming", items, 7);
    let named = place(named, "source", items, 8);
    place(named, "verified_at", items, 9)
}

/// Reads one row of a table file.
fn read_row(json: &Json) -> (read: Result<Entry, String>)
    ensures
        outcome(read) == row_in(json.tree()),
{
    match json {
        Json::Array(items) => read_members(&name_members(items)),
        _ => read_members(json),
    }
}

/// Reads one row of a table file by the names of its members.
fn read_members(json: &Json) -> (read: Result<Entry, String>)
    ensures
        outcome(read) == members_in(json.tree()),
{
    let id = match read_required(json, "id") {
        Ok(text) => text,
        Err(why) => {
            return Err(why);
        },
    };
    let context_window: u32 = match read_count(json, "context_window") {
        Ok(n) => n,
        Err(why) => {
            return Err(why);
        },
    };
    let max_output: u32 = match read_count(json, "max_output") {
        Ok(n) => n,
        Err(why) => {
            return Err(why);
        },
    };
    let tools = match read_flag(json, "tools") {
        Ok(b) => b,
        Err(why) => {
            return Err(why);
        },
    };
    let structured_output = match read_flag(json, "structured_output") {
        Ok(b) => b,
        Err(why) => {
            return Err(why);
        },
    };
    let prompt_caching = match read_flag(json, "prompt_caching") {
        Ok(b) => b,
        Err(why) => {
            return Err(why);
        },
    };
    let thinking = match read_flag(json, "thinking") {
        Ok(b) => b,
        Err(why) => {
            return Err(why);
        },
    };
    let images = match read_flag(json, "images") {
        Ok(b) => b,
        Err(why) => {
            return Err(why);
        },
    };
    let streaming = match read_flag(json, "streaming") {
        Ok(b) => b,
        Err(why) => {
            return Err(why);
        },
    };
    let source = match read_required(json, "source") {
        Ok(text) => text,
        Err(why) => {
            return Err(why);
        },
    };
    let verified_at = match read_required(json, "verified_at") {
        Ok(text) => text,
        Err(why) => {
            return Err(why);
        },
    };
    Ok(
        Entry {
            id,
            context_window,
            max_output,
            tools,
            structured_output,
            prompt_caching,
            thinking,
            images,
            streaming,
            source,
            verified_at,
        },
    )
}

/// Rows of which the first few cannot be read cannot be read for the same reason.
proof fn rows_fail_together(rows: Seq<Tree>, i: int)
    requires
        0 <= i <= rows.len(),
        rows_in(rows.take(i)) is Err,
    ensures
        rows_in(rows) == rows_in(rows.take(i)),
    decreases rows.len() - i,
{
    if i < rows.len() {
        assert(rows.take(i + 1).drop_last() == rows.take(i));
        rows_fail_together(rows, i + 1);
    } else {
        assert(rows.take(i) == rows);
    }
}

/// Rows of which the first few hold a name twice are refused for the same reason.
proof fn models_fail_together(rows: Seq<Row>, i: int)
    requires
        0 <= i <= rows.len(),
        models_of(rows.take(i)) is Err,
    ensures
        models_of(rows) == models_of(rows.take(i)),
    decreases rows.len() - i,
{
    if i < rows.len() {
        assert(rows.take(i + 1).drop_last() == rows.take(i));
        models_fail_together(rows, i + 1);
    } else {
        assert(rows.take(i) == rows);
    }
}

/// Reads the rows of a table file.
fn read_rows(rows: &Vec<Json>) -> (read: Result<Vec<Entry>, String>)
    ensures
        outcome(read) == rows_in(trees(rows@)),
{
    let mut found: Vec<Entry> = Vec::new();
    let mut i: usize = 0;
    assert(trees(rows@).take(0) == Seq::<Tree>::empty());
    assert(found.deep_view() == Seq::<Row>::empty());
    while i < rows.len()
        invariant
            i <= rows.len(),
            rows_in(trees(rows@).take(i as int)) == Ok::<Seq<Row>, Seq<char>>(found.deep_view()),
        decreases rows.len() - i,
    {
        let ghost some = trees(rows@).take(i + 1);
        assert(some.drop_last() == trees(rows@).take(i as int));
        assert(some.last() == rows[i as int].tree());
        let ghost before = found.deep_view();
        match read_row(&rows[i]) {
            Ok(row) => {
                found.push(row);
                assert(found.deep_view() == before.push(row.deep_view()));
            },
            Err(why) => {
                proof {
                    rows_fail_together(trees(rows@), i + 1);
                }
                return Err(why);
            },
        }
        i += 1;
    }
    assert(trees(rows@).take(i as int) == trees(rows@));
    Ok(found)
}

/// What a reading of rows by name gave.
pub open spec fn models_read(read: Result<Table<Entry>, String>) -> Result<
    Map<Seq<char>, Row>,
    Seq<char>,
> {
    match read {
        Ok(models) => Ok(rows_of(models@)),
        Err(why) => Err(why@),
    }
}

/// Puts rows into a table by name.
fn table_of(rows: Vec<Entry>) -> (read: Result<Table<Entry>, String>)
    ensures
        models_read(read) == models_of(rows.deep_view()),
{
    let mut models: Table<Entry> = Table::new();
    let mut i: usize = 0;
    assert(rows.deep_view().take(0) == Seq::<Row>::empty());
    assert(rows_of(models@) =~= Map::<Seq<char>, Row>::empty());
    while i < rows.len()
        invariant
            i <= rows.len(),
            models_of(rows.deep_view().take(i as int)) == Ok::<Map<Seq<char>, Row>, Seq<char>>(
                rows_of(models@),
            ),
        decreases rows.len() - i,
    {
        let ghost some = rows.deep_view().take(i + 1);
        assert(some.drop_last() == rows.deep_view().take(i as int));
        assert(some.last() == rows[i as int].deep_view());
        if models.get(rows[i].id.as_str()).is_some() {
            proof {
                models_fail_together(rows.deep_view(), i + 1);
            }
            return Err(
                followed_by(
                    rows[i].id.as_str(),
                    " appears twice. One row would silently replace the other, and nothing would say which",
                ),
            );
        }
        let ghost before = models@;
        let row = copied(&rows[i]);
        models.insert(rows[i].id.clone(), row);
        assert(rows_of(models@) =~= rows_of(before).insert(
            rows[i as int].id@,
            rows[i as int].deep_view(),
        ));
        i += 1;
    }
    assert(rows.deep_view().take(i as int) == rows.deep_view());
    Ok(models)
}

/// The same entry.
fn copied(entry: &Entry) -> (copy: Entry)
    ensures
        copy.deep_view() == entry.deep_view(),
{
    Entry {
        id: entry.id.clone(),
        context_window: entry.context_window,
        max_output: entry.max_output,
        tools: entry.tools,
        structured_output: entry.structured_output,
        prompt_caching: entry.prompt_caching,
        thinking: entry.thinking,
        images: entry.images,
        streaming: entry.streaming,
        source: entry.source.clone(),
        verified_at: entry.verified_at.clone(),
    }
}

/// Reads the rows that a document gives under `model`.
fn read_models(json: &Json) -> (read: Result<Table<Entry>, String>)
    ensures
        models_read(read) == models_in(json.tree()),
{
    match json.get("model") {
        None => {
            let models: Table<Entry> = Table::new();
            assert(rows_of(models@) =~= Map::<Seq<char>, Row>::empty());
            Ok(models)
        },
        Some(value) => match value.as_array() {
            None => Err("model is not a list".to_owned()),
            Some(rows) => match read_rows(rows) {
                Err(why) => Err(why),
                Ok(rows) => table_of(rows),
            },
        },
    }
}

/// Reads the reach that a table file names.
fn read_reach(name: &str) -> (reach: Option<Reach>)
    ensures
        reach == reach_in(name@),
{
    if same(name, "FirstPartyApi") {
        Some(Reach::FirstPartyApi)
    } else if same(name, "CloudPartner") {
        Some(Reach::CloudPartner)
    } else if same(name, "PrivateEndpoint") {
        Some(Reach::PrivateEndpoint)
    } else if same(name, "LocalCli") {
        Some(Reach::LocalCli)
    } else if same(name, "SelfHosted") {
        Some(Reach::SelfHosted)
    } else {
        None
    }
}

/// Whether a document is an object with this one member, and nothing in it.
fn names_only(json: &Json, name: &str) -> (yes: bool)
    ensures
        yes == only_names(json.tree(), name@),
{
    let hollow = match json.get(name) {
        None => false,
        Some(Json::Array(items)) => items.len() == 0,
        Some(member) => *member == Json::object(),
    };
    hollow && json.clone().without(name) == Json::object()
}

/// Reads the reach that a document must give.
fn read_reach_at(json: &Json) -> (read: Result<Reach, String>)
    ensures
        match read {
            Ok(reach) => reach_at(json.tree()) == Ok::<Reach, Seq<char>>(reach),
            Err(why) => reach_at(json.tree()) == Err::<Reach, Seq<char>>(why@),
        },
{
    let value = match json.get("reach") {
        Some(value) => value,
        None => {
            return Err("no text is given for reach".to_owned());
        },
    };
    if let Some(name) = value.as_str() {
        return match read_reach(name) {
            Some(reach) => Ok(reach),
            None => Err(followed_by("no reach is named ", name)),
        };
    }
    if names_only(value, "FirstPartyApi") {
        Ok(Reach::FirstPartyApi)
    } else if names_only(value, "CloudPartner") {
        Ok(Reach::CloudPartner)
    } else if names_only(value, "PrivateEndpoint") {
        Ok(Reach::PrivateEndpoint)
    } else if names_only(value, "LocalCli") {
        Ok(Reach::LocalCli)
    } else if names_only(value, "SelfHosted") {
        Ok(Reach::SelfHosted)
    } else {
        Err("no text is given for reach".to_owned())
    }
}

/// The message for the first row in name order that nobody can trace, where there is one.
fn untraceable_row(models: &Table<Entry>) -> (why: Option<String>)
    ensures
        match why {
            None => all_traceable(rows_of(models@)),
            Some(why) => exists|name: Seq<char>| #[trigger]
                first_untraceable(rows_of(models@), name) && why@ == untraced(
                    rows_of(models@)[name].id,
                ),
        },
{
    let names = models.names();
    let ghost rows = rows_of(models@);
    let mut i: usize = 0;
    while i < names.len()
        invariant
            i <= names.len(),
            rows == rows_of(models@),
            names.deep_view() == models.listed(),
            increasing(names.deep_view()),
            names.deep_view().to_set() == models@.dom(),
            forall|j: int|
                0 <= j < i ==> !untraceable(rows[#[trigger] names.deep_view()[j]]),
        decreases names.len() - i,
    {
        let (name, entry) = models.entry(i);
        assert(names.deep_view()[i as int] == name@);
        if blank(entry.source.as_str()) || blank(entry.verified_at.as_str()) {
            proof {
                assert(rows.contains_key(name@));
                assert forall|other: Seq<char>| #[trigger]
                    rows.contains_key(other) && untraceable(rows[other]) implies !precedes(
                    other,
                    name@,
                ) by {
                    assert(names.deep_view().to_set().contains(other));
                    let k = names.deep_view().index_of(other);
                    assert(names.deep_view()[k] == other);
                    if k > i {
                        assert(precedes(names.deep_view()[i as int], names.deep_view()[k]));
                        crate::order::precedes_is_asymmetric(name@, other);
                    } else {
                        crate::order::precedes_is_strict(name@);
                    }
                }
                assert(first_untraceable(rows, name@));
            }
            return Some(
                followed_by(
                    entry.id.as_str(),
                    ": a row needs a source and a verification date, or nobody can tell later which of these numbers still hold",
                ),
            );
        }
        i += 1;
    }
    proof {
        assert forall|name: Seq<char>| #[trigger] rows.contains_key(name) implies !untraceable(
            rows[name],
        ) by {
            assert(names.deep_view().to_set().contains(name));
            let k = names.deep_view().index_of(name);
            assert(names.deep_view()[k] == name);
        }
    }
    None
}

impl Registry {
    /// An empty registry for a provider that has no table yet.
    ///
    /// Every lookup returns `None`, which reads as "this provider does not know that
    /// model". That is the honest answer when nobody has written the table down.
    pub fn empty(provider: &str, reach: Reach) -> (registry: Registry)
        ensures
            registry.deep_view() == (Listing { provider: provider@, reach, models: Map::empty() }),
    {
        let registry = Registry { provider: provider.to_owned(), reach, models: Table::new() };
        assert(rows_of(registry.models@) =~= Map::<Seq<char>, Row>::empty());
        registry
    }

    /// Reads a registry from a document.
    ///
    /// A table is refused when a field is missing or of the wrong kind, when a row appears
    /// twice, and when a row has no source or no verification date.
    pub fn read(json: &Json) -> (read: Result<Registry, String>)
        ensures
            registry_read(json.tree(), outcome(read)),
    {
        let provider = match read_required(json, "provider") {
            Ok(text) => text,
            Err(why) => {
                return Err(why);
            },
        };
        let reach = match read_reach_at(json) {
            Ok(reach) => reach,
            Err(why) => {
                return Err(why);
            },
        };
        let models = match read_models(json) {
            Ok(models) => models,
            Err(why) => {
                return Err(why);
            },
        };
        match untraceable_row(&models) {
            Some(why) => Err(why),
            None => Ok(Registry { provider, reach, models }),
        }
    }

    /// Reads a registry from TOML.
    ///
    /// The message says why where the document cannot be parsed, or where
    /// [`Registry::read`] refuses it.
    pub fn parse(text: &str) -> (read: Result<Registry, String>)
        ensures
            match toml_parsed(text@) {
                Ok(tree) => registry_read(tree, outcome(read)),
                Err(why) => outcome(read) == Err::<Listing, Seq<char>>(why),
            },
    {
        match Json::parse_toml(text) {
            Ok(json) => Self::read(&json),
            Err(why) => Err(why),
        }
    }

    /// What this model can do, as reached this way.
    pub fn capabilities(&self, model: &ModelId) -> (have: Option<ModelCapabilities>)
        ensures
            have == self.deep_view().capabilities(model@),
    {
        match self.models.get(model.as_str()) {
            None => None,
            Some(entry) => Some(
                ModelCapabilities {
                    context_window: entry.context_window,
                    max_output: entry.max_output,
                    tools: entry.tools,
                    structured_output: entry.structured_output,
                    prompt_caching: entry.prompt_caching,
                    thinking: entry.thinking,
                    images: entry.images,
                    streaming: entry.streaming,
                    reach: self.reach,
                },
            ),
        }
    }

    /// Every model in the table, in name order.
    pub fn ids(&self) -> (ids: Vec<ModelId>)
        ensures
            increasing(ids.deep_view()),
            ids.deep_view().to_set() == self.deep_view().models.dom(),
    {
        let names = self.models.names();
        let mut ids: Vec<ModelId> = Vec::new();
        let mut i: usize = 0;
        while i < names.len()
            invariant
                i <= names.len(),
                ids.deep_view() == names.deep_view().take(i as int),
            decreases names.len() - i,
        {
            let ghost before = ids.deep_view();
            ids.push(ModelId(names[i].to_owned()));
            assert(ids.deep_view() == before.push(names[i as int]@));
            i += 1;
        }
        assert(ids.deep_view() == names.deep_view());
        assert(self.deep_view().models.dom() =~= self.models@.dom());
        ids
    }

    /// Names this table has that the provider no longer serves, in name order.
    ///
    /// Reported rather than removed. A row that vanished because a vendor retired a model
    /// is a decision somebody should make, and a table that quietly edits itself is one
    /// nobody can review.
    pub fn stale(&self, served: &[ModelId]) -> (gone: Vec<&str>)
        ensures
            increasing(gone.deep_view()),
            gone.deep_view().to_set() == self.deep_view().models.dom().difference(
                served_names(served@),
            ),
    {
        let names = self.models.names();
        let mut gone: Vec<&str> = Vec::new();
        let mut i: usize = 0;
        while i < names.len()
            invariant
                i <= names.len(),
                increasing(names.deep_view()),
                increasing(gone.deep_view()),
                forall|j: int, k: int|
                    0 <= j < gone.deep_view().len() && i <= k < names.deep_view().len()
                        ==> precedes(#[trigger] gone.deep_view()[j], #[trigger] names.deep_view()[k]),
                forall|name: Seq<char>| #[trigger]
                    gone.deep_view().contains(name) <==> names.deep_view().take(
                        i as int,
                    ).contains(name) && !served_names(served@).contains(name),
            decreases names.len() - i,
        {
            let ghost before = gone.deep_view();
            let ghost some = names.deep_view().take(i as int);
            let ghost more = names.deep_view().take(i + 1);
            assert(more == some.push(names[i as int]@));
            let known = is_served(names[i], served);
            if !known {
                gone.push(names[i]);
                assert(gone.deep_view() == before.push(names[i as int]@));
            }
            proof {
                assert forall|name: Seq<char>| #[trigger]
                    gone.deep_view().contains(name) <==> more.contains(name) && !served_names(
                        served@,
                    ).contains(name) by {
                    pushed_contains(some, names[i as int]@, name);
                    pushed_contains(before, names[i as int]@, name);
                    assert(before.contains(name) <==> some.contains(name) && !served_names(
                        served@,
                    ).contains(name));
                }
                assert forall|j: int, k: int|
                    0 <= j < gone.deep_view().len() && i + 1 <= k
                        < names.deep_view().len() implies precedes(
                    #[trigger] gone.deep_view()[j],
                    #[trigger] names.deep_view()[k],
                ) by {
                    if j < before.len() {
                        assert(gone.deep_view()[j] == before[j]);
                    } else {
                        assert(gone.deep_view()[j] == names.deep_view()[i as int]);
                    }
                }
                assert forall|j: int, k: int| 0 <= j < k < gone.deep_view().len() implies precedes(
                    #[trigger] gone.deep_view()[j],
                    #[trigger] gone.deep_view()[k],
                ) by {
                    assert(gone.deep_view()[j] == before[j]);
                    if k < before.len() {
                        assert(gone.deep_view()[k] == before[k]);
                    } else {
                        assert(gone.deep_view()[k] == names.deep_view()[i as int]);
                    }
                }
            }
            i += 1;
        }
        proof {
            assert(names.deep_view().take(i as int) == names.deep_view());
            assert(self.deep_view().models.dom() =~= self.models@.dom());
            assert forall|name: Seq<char>| #[trigger]
                gone.deep_view().to_set().contains(name)
                    == self.deep_view().models.dom().difference(served_names(served@)).contains(
                    name,
                ) by {
                assert(names.deep_view().to_set().contains(name)
                    == names.deep_view().contains(name));
            }
            assert(gone.deep_view().to_set() =~= self.deep_view().models.dom().difference(
                served_names(served@),
            ));
        }
        gone
    }

    /// Names the provider serves that this table has never heard of, in the order it gave.
    pub fn unlisted<'a>(&self, served: &'a [ModelId]) -> (found: Vec<&'a ModelId>)
        ensures
            found.deep_view() == unknown_names(self.deep_view().models.dom(), served@),
    {
        let mut found: Vec<&'a ModelId> = Vec::new();
        let mut i: usize = 0;
        assert(served@.take(0) == Seq::<ModelId>::empty());
        while i < served.len()
            invariant
                i <= served.len(),
                found.deep_view() == unknown_names(
                    self.deep_view().models.dom(),
                    served@.take(i as int),
                ),
            decreases served.len() - i,
        {
            let ghost before = found.deep_view();
            proof {
                let some = served@.take(i + 1);
                assert(some.drop_last() == served@.take(i as int));
                assert(some.last() == served@[i as int]);
                assert(self.deep_view().models.dom().contains(served@[i as int]@)
                    == self.models@.contains_key(served@[i as int]@));
            }
            if self.models.get(served[i].as_str()).is_none() {
                found.push(&served[i]);
                assert(found.deep_view() == before.push(served@[i as int]@));
            }
            i += 1;
        }
        assert(served@.take(i as int) == served@);
        found
    }
}

/// The names of some models.
pub open spec fn served_names(served: Seq<ModelId>) -> Set<Seq<char>> {
    Set::new(
        |name: Seq<char>|
            exists|i: int| 0 <= i < served.len() && (#[trigger] served[i])@ == name,
    )
}

/// The names of some models that are not among these, in order.
pub open spec fn unknown_names(known: Set<Seq<char>>, served: Seq<ModelId>) -> Seq<Seq<char>>
    decreases served.len(),
{
    if served.len() == 0 {
        Seq::empty()
    } else if known.contains(served.last()@) {
        unknown_names(known, served.drop_last())
    } else {
        unknown_names(known, served.drop_last()).push(served.last()@)
    }
}

/// A list with one more name has the names it had and that one.
proof fn pushed_contains(names: Seq<Seq<char>>, more: Seq<char>, name: Seq<char>)
    ensures
        names.push(more).contains(name) <==> names.contains(name) || name == more,
{
    if names.contains(name) {
        assert(names.push(more)[names.index_of(name)] == name);
    }
    assert(names.push(more)[names.len() as int] == more);
}

/// Whether one of these models has this name.
fn is_served(name: &str, served: &[ModelId]) -> (yes: bool)
    ensures
        yes == served_names(served@).contains(name@),
{
    let mut i: usize = 0;
    while i < served.len()
        invariant
            i <= served.len(),
            forall|j: int| 0 <= j < i ==> (#[trigger] served@[j])@ != name@,
        decreases served.len() - i,
    {
        if same(served[i].as_str(), name) {
            assert(served@[i as int]@ == name@);
            return true;
        }
        i += 1;
    }
    false
}

/// A table without rows knows no model.
pub proof fn an_empty_table_knows_nothing(listing: Listing, model: Seq<char>)
    requires
        listing.models == Map::<Seq<char>, Row>::empty(),
    ensures
        listing.capabilities(model) is None,
{
}

/// What a table says of a model is what its row says, for the reach of the whole table.
pub proof fn a_row_answers_for_the_tables_reach(listing: Listing, model: Seq<char>)
    ensures
        listing.capabilities(model) is Some <==> listing.models.contains_key(model),
        listing.capabilities(model) matches Some(have) ==> have.reach == listing.reach,
{
}

/// What a table says of a model is what its row says, number by number and ability by ability.
pub proof fn a_row_answers_for_its_model(listing: Listing, model: Seq<char>)
    requires
        listing.models.contains_key(model),
    ensures
        ({
            let have = listing.capabilities(model)->0;
            let row = listing.models[model];
            &&& have.context_window == row.context_window
            &&& have.max_output == row.max_output
            &&& have.tools == row.tools
            &&& have.structured_output == row.structured_output
            &&& have.prompt_caching == row.prompt_caching
            &&& have.thinking == row.thinking
            &&& have.images == row.images
            &&& have.streaming == row.streaming
            &&& have.reach == listing.reach
        }),
{
}

/// A row holds what its document gives under each name, and an ability that is not given is not
/// there.
pub proof fn a_row_holds_what_its_document_gives(tree: Tree)
    requires
        members_in(tree) is Ok,
    ensures
        ({
            let row = members_in(tree)->Ok_0;
            &&& tree.text_at("id"@) == Some(row.id)
            &&& tree.text_at("source"@) == Some(row.source)
            &&& tree.text_at("verified_at"@) == Some(row.verified_at)
            &&& tree.u64_at("context_window"@) == Some(row.context_window as u64)
            &&& tree.u64_at("max_output"@) == Some(row.max_output as u64)
            &&& row.tools <==> (tree.get("tools"@) is Some && tree.get("tools"@)->0.as_bool() == Some(
                true,
            ))
            &&& row.structured_output <==> (tree.get("structured_output"@) is Some && tree.get("structured_output"@)->0.as_bool() == Some(
                true,
            ))
            &&& row.prompt_caching <==> (tree.get("prompt_caching"@) is Some && tree.get("prompt_caching"@)->0.as_bool() == Some(
                true,
            ))
            &&& row.thinking <==> (tree.get("thinking"@) is Some && tree.get("thinking"@)->0.as_bool() == Some(
                true,
            ))
            &&& row.images <==> (tree.get("images"@) is Some && tree.get("images"@)->0.as_bool() == Some(
                true,
            ))
            &&& row.streaming <==> (tree.get("streaming"@) is Some && tree.get("streaming"@)->0.as_bool() == Some(
                true,
            ))
        }),
{
}

/// The names of the reaches are told apart.
proof fn reaches_differ()
    ensures
        "FirstPartyApi"@ != "CloudPartner"@,
        "FirstPartyApi"@ != "PrivateEndpoint"@,
        "FirstPartyApi"@ != "LocalCli"@,
        "FirstPartyApi"@ != "SelfHosted"@,
        "CloudPartner"@ != "PrivateEndpoint"@,
        "CloudPartner"@ != "LocalCli"@,
        "CloudPartner"@ != "SelfHosted"@,
        "PrivateEndpoint"@ != "LocalCli"@,
        "PrivateEndpoint"@ != "SelfHosted"@,
        "LocalCli"@ != "SelfHosted"@,
{
    reveal_strlit("FirstPartyApi");
    reveal_strlit("CloudPartner");
    reveal_strlit("PrivateEndpoint");
    reveal_strlit("LocalCli");
    reveal_strlit("SelfHosted");
    assert("FirstPartyApi"@.len() != "CloudPartner"@.len());
    assert("FirstPartyApi"@.len() != "PrivateEndpoint"@.len());
    assert("FirstPartyApi"@.len() != "LocalCli"@.len());
    assert("FirstPartyApi"@.len() != "SelfHosted"@.len());
    assert("CloudPartner"@.len() != "PrivateEndpoint"@.len());
    assert("CloudPartner"@.len() != "LocalCli"@.len());
    assert("CloudPartner"@.len() != "SelfHosted"@.len());
    assert("PrivateEndpoint"@.len() != "LocalCli"@.len());
    assert("PrivateEndpoint"@.len() != "SelfHosted"@.len());
    assert("LocalCli"@.len() != "SelfHosted"@.len());
}

/// A reach is read under its own name and under no other.
pub proof fn a_reach_has_one_name(name: Seq<char>)
    ensures
        reach_in("FirstPartyApi"@) == Some(Reach::FirstPartyApi),
        reach_in("CloudPartner"@) == Some(Reach::CloudPartner),
        reach_in("PrivateEndpoint"@) == Some(Reach::PrivateEndpoint),
        reach_in("LocalCli"@) == Some(Reach::LocalCli),
        reach_in("SelfHosted"@) == Some(Reach::SelfHosted),
        reach_in(name) is Some ==> name == "FirstPartyApi"@ || name == "CloudPartner"@ || name
            == "PrivateEndpoint"@ || name == "LocalCli"@ || name == "SelfHosted"@,
{
    reaches_differ();
}

/// A table holds the rows of its document under their own names, once each, and a name that
/// stands there twice is refused.
pub proof fn a_table_holds_its_rows(rows: Seq<Row>, row: Row)
    requires
        models_of(rows) is Ok,
    ensures
        models_of(rows.push(row)) is Ok <==> !models_of(rows)->Ok_0.contains_key(row.id),
        models_of(rows.push(row)) is Ok ==> models_of(rows.push(row))->Ok_0 == models_of(
            rows,
        )->Ok_0.insert(row.id, row),
        models_of(Seq::<Row>::empty()) == Ok::<Map<Seq<char>, Row>, Seq<char>>(Map::empty()),
{
    assert(rows.push(row).drop_last() == rows);
}

/// A table that is read is the provider's that its document names, with its reach, and nobody has
/// to guess where a row of it comes from or when it was checked.
pub proof fn a_table_that_is_read_can_be_traced(
    tree: Tree,
    read: Result<Listing, Seq<char>>,
    model: Seq<char>,
)
    requires
        registry_read(tree, read),
        read is Ok,
    ensures
        tree.text_at("provider"@) == Some(read->Ok_0.provider),
        read->Ok_0.models.contains_key(model) ==> !is_blank(read->Ok_0.models[model].source)
            && !is_blank(read->Ok_0.models[model].verified_at),
{
}

/// What is served and unknown to a table is named, once for each time it is served.
pub proof fn what_a_table_lacks_is_named(known: Set<Seq<char>>, served: Seq<ModelId>, one: ModelId)
    ensures
        unknown_names(known, Seq::<ModelId>::empty()).len() == 0,
        unknown_names(known, served.push(one)) == (if known.contains(one@) {
            unknown_names(known, served)
        } else {
            unknown_names(known, served).push(one@)
        }),
{
    assert(served.push(one).drop_last() == served);
}

/// The members of a row are told apart.
proof fn row_members_differ()
    ensures
        "id"@ != "context_window"@,
        "id"@ != "max_output"@,
        "id"@ != "tools"@,
        "id"@ != "structured_output"@,
        "id"@ != "prompt_caching"@,
        "id"@ != "thinking"@,
        "id"@ != "streaming"@,
        "id"@ != "source"@,
        "id"@ != "verified_at"@,
        "context_window"@ != "max_output"@,
        "context_window"@ != "tools"@,
        "context_window"@ != "structured_output"@,
        "context_window"@ != "prompt_caching"@,
        "context_window"@ != "thinking"@,
        "context_window"@ != "streaming"@,
        "context_window"@ != "source"@,
        "context_window"@ != "verified_at"@,
        "max_output"@ != "tools"@,
        "max_output"@ != "structured_output"@,
        "max_output"@ != "prompt_caching"@,
        "max_output"@ != "thinking"@,
        "max_output"@ != "streaming"@,
        "max_output"@ != "source"@,
        "max_output"@ != "verified_at"@,
        "tools"@ != "structured_output"@,
        "tools"@ != "prompt_caching"@,
        "tools"@ != "thinking"@,
        "tools"@ != "streaming"@,
        "tools"@ != "source"@,
        "tools"@ != "verified_at"@,
        "structured_output"@ != "prompt_caching"@,
        "structured_output"@ != "thinking"@,
        "structured_output"@ != "streaming"@,
        "structured_output"@ != "source"@,
        "structured_output"@ != "verified_at"@,
        "prompt_caching"@ != "thinking"@,
        "prompt_caching"@ != "streaming"@,
        "prompt_caching"@ != "source"@,
        "prompt_caching"@ != "verified_at"@,
        "thinking"@ != "streaming"@,
        "thinking"@ != "source"@,
        "thinking"@ != "verified_at"@,
        "streaming"@ != "source"@,
        "streaming"@ != "verified_at"@,
        "source"@ != "verified_at"@,
{
    reveal_strlit("id");
    reveal_strlit("context_window");
    reveal_strlit("max_output");
    reveal_strlit("tools");
    reveal_strlit("structured_output");
    reveal_strlit("prompt_caching");
    reveal_strlit("thinking");
    reveal_strlit("streaming");
    reveal_strlit("source");
    reveal_strlit("verified_at");
    assert("id"@.len() != "context_window"@.len());
    assert("id"@.len() != "max_output"@.len());
    assert("id"@.len() != "tools"@.len());
    assert("id"@.len() != "structured_output"@.len());
    assert("id"@.len() != "prompt_caching"@.len());
    assert("id"@.len() != "thinking"@.len());
    assert("id"@.len() != "streaming"@.len());
    assert("id"@.len() != "source"@.len());
    assert("id"@.len() != "verified_at"@.len());
    assert("context_window"@.len() != "max_output"@.len());
    assert("context_window"@.len() != "tools"@.len());
    assert("context_window"@.len() != "structured_output"@.len());
    assert("context_window"@[0] != "prompt_caching"@[0]);
    assert("context_window"@.len() != "thinking"@.len());
    assert("context_window"@.len() != "streaming"@.len());
    assert("context_window"@.len() != "source"@.len());
    assert("context_window"@.len() != "verified_at"@.len());
    assert("max_output"@.len() != "tools"@.len());
    assert("max_output"@.len() != "structured_output"@.len());
    assert("max_output"@.len() != "prompt_caching"@.len());
    assert("max_output"@.len() != "thinking"@.len());
    assert("max_output"@.len() != "streaming"@.len());
    assert("max_output"@.len() != "source"@.len());
    assert("max_output"@.len() != "verified_at"@.len());
    assert("tools"@.len() != "structured_output"@.len());
    assert("tools"@.len() != "prompt_caching"@.len());
    assert("tools"@.len() != "thinking"@.len());
    assert("tools"@.len() != "streaming"@.len());
    assert("tools"@.len() != "source"@.len());
    assert("tools"@.len() != "verified_at"@.len());
    assert("structured_output"@.len() != "prompt_caching"@.len());
    assert("structured_output"@.len() != "thinking"@.len());
    assert("structured_output"@.len() != "streaming"@.len());
    assert("structured_output"@.len() != "source"@.len());
    assert("structured_output"@.len() != "verified_at"@.len());
    assert("prompt_caching"@.len() != "thinking"@.len());
    assert("prompt_caching"@.len() != "streaming"@.len());
    assert("prompt_caching"@.len() != "source"@.len());
    assert("prompt_caching"@.len() != "verified_at"@.len());
    assert("thinking"@.len() != "streaming"@.len());
    assert("thinking"@.len() != "source"@.len());
    assert("thinking"@.len() != "verified_at"@.len());
    assert("streaming"@.len() != "source"@.len());
    assert("streaming"@.len() != "verified_at"@.len());
    assert("source"@.len() != "verified_at"@.len());
}

/// A row that is a list gives its members in their order.
pub proof fn a_list_gives_a_row_in_its_order(items: Seq<Tree>)
    ensures
        ({
            let row = row_by_name(Tree::Array(items));
            &&& row.get("id"@) == (if items.len() > 0 {
                Some(items[0])
            } else {
                None
            })
            &&& row.get("context_window"@) == (if items.len() > 1 {
                Some(items[1])
            } else {
                None
            })
            &&& row.get("max_output"@) == (if items.len() > 2 {
                Some(items[2])
            } else {
                None
            })
            &&& row.get("tools"@) == (if items.len() > 3 {
                Some(items[3])
            } else {
                None
            })
            &&& row.get("structured_output"@) == (if items.len() > 4 {
                Some(items[4])
            } else {
                None
            })
            &&& row.get("prompt_caching"@) == (if items.len() > 5 {
                Some(items[5])
            } else {
                None
            })
            &&& row.get("thinking"@) == (if items.len() > 6 {
                Some(items[6])
            } else {
                None
            })
            &&& row.get("streaming"@) == (if items.len() > 7 {
                Some(items[7])
            } else {
                None
            })
            &&& row.get("source"@) == (if items.len() > 8 {
                Some(items[8])
            } else {
                None
            })
            &&& row.get("verified_at"@) == (if items.len() > 9 {
                Some(items[9])
            } else {
                None
            })
        }),
{
    row_members_differ();
}

/// A reach that is written as a table with nothing in it is the one of that name.
pub proof fn a_hollow_reach_is_the_one_of_its_name(tree: Tree, name: Seq<char>)
    requires
        only_names(tree, name),
        reach_in(name) is Some,
    ensures
        reach_of(tree) == reach_in(name),
{
    reaches_differ();
    if name != "FirstPartyApi"@ {
        assert(tree.without(name).get("FirstPartyApi"@) == tree.get("FirstPartyApi"@));
        assert(tree.get("FirstPartyApi"@) is None);
    }
    if name != "CloudPartner"@ {
        assert(tree.without(name).get("CloudPartner"@) == tree.get("CloudPartner"@));
        assert(tree.get("CloudPartner"@) is None);
    }
    if name != "PrivateEndpoint"@ {
        assert(tree.without(name).get("PrivateEndpoint"@) == tree.get("PrivateEndpoint"@));
        assert(tree.get("PrivateEndpoint"@) is None);
    }
    if name != "LocalCli"@ {
        assert(tree.without(name).get("LocalCli"@) == tree.get("LocalCli"@));
        assert(tree.get("LocalCli"@) is None);
    }
    if name != "SelfHosted"@ {
        assert(tree.without(name).get("SelfHosted"@) == tree.get("SelfHosted"@));
        assert(tree.get("SelfHosted"@) is None);
    }
}

/// A table with a row that nobody can trace is refused, and the first such row in the order of
/// the names is the one that is named.
pub proof fn the_first_row_that_cannot_be_traced_is_named(
    tree: Tree,
    read: Result<Listing, Seq<char>>,
    model: Seq<char>,
)
    requires
        registry_read(tree, read),
        unchecked_listing(tree) is Ok,
        unchecked_listing(tree)->Ok_0.models.contains_key(model),
        is_blank(unchecked_listing(tree)->Ok_0.models[model].source) || is_blank(
            unchecked_listing(tree)->Ok_0.models[model].verified_at,
        ),
    ensures
        read is Err,
        exists|name: Seq<char>| #[trigger]
            unchecked_listing(tree)->Ok_0.models.contains_key(name) && !precedes(model, name) && (
            is_blank(unchecked_listing(tree)->Ok_0.models[name].source) || is_blank(
                unchecked_listing(tree)->Ok_0.models[name].verified_at,
            )) && read->Err_0 == unchecked_listing(tree)->Ok_0.models[name].id
                + ": a row needs a source and a verification date, or nobody can tell later which of these numbers still hold"@,
{
    let models = unchecked_listing(tree)->Ok_0.models;
    assert(untraceable(models[model]));
    assert(!all_traceable(models));
    let name = choose|name: Seq<char>| #[trigger]
        first_untraceable(models, name) && read == Err::<Listing, Seq<char>>(
            untraced(models[name].id),
        );
    assert(models.contains_key(name));
    assert(models.contains_key(model));
}

} // verus!
