//! Command definitions and the loader that reads them from TOML documents.
use vstd::prelude::*;
use vstd::string::StringExecFns;
use crate::document::{field_text, parse_table, string_field, toml_document};
use crate::error::CommandError;

verus! {

/// Represents a single slash command definition loaded from a TOML document.
#[derive(Debug)]
pub struct Command {
    /// A brief, user-facing description of what the command does.
    pub description: String,
    /// The prompt template that is processed and sent to the assistant.
    /// It may contain the placeholders `$ARGUMENTS` and `$PROJECT_ROOT`.
    pub prompt: String,
}

/// The mathematical value of a [`Command`].
pub ghost struct CommandModel {
    pub description: Seq<char>,
    pub prompt: Seq<char>,
}

impl View for Command {
    type V = CommandModel;

    open spec fn view(&self) -> CommandModel {
        CommandModel { description: self.description@, prompt: self.prompt@ }
    }
}

/// The command that a definition text describes: its `description` and
/// `prompt` entries, both strings; `None` where the text is no TOML
/// document or lacks either of them as a string.
pub open spec fn command_of(text: Seq<char>) -> Option<CommandModel> {
    match toml_document(text) {
        Some(doc) => match (field_text(doc, "description"@), field_text(doc, "prompt"@)) {
            (Some(d), Some(p)) => Some(CommandModel { description: d, prompt: p }),
            _ => None,
        },
        None => None,
    }
}

/// How the details of a schema error begin: they name the entry at fault.
pub open spec fn schema_prefix(name: Seq<char>) -> Seq<char> {
    "for command '"@ + name + "': "@
}

/// `e` is a schema error that names the entry `name`.
pub open spec fn is_schema_error_for(e: CommandError, name: Seq<char>) -> bool {
    match e {
        CommandError::TomlParseError(d) => schema_prefix(name).is_prefix_of(d@),
        _ => false,
    }
}

fn schema_error(name: &str, details: &str) -> (e: CommandError)
    ensures
        is_schema_error_for(e, name@),
{
    let mut d = String::from_str("for command '");
    d.append(name);
    d.append("': ");
    let ghost prefix = d@;
    d.append(details);
    assert(d@.subrange(0, prefix.len() as int) =~= prefix);
    CommandError::TomlParseError(d)
}

/// Parses one definition text into a command.
pub fn parse_command(name: &str, text: &str) -> (r: Result<Command, CommandError>)
    ensures
        match r {
            Ok(c) => command_of(text@) == Some(c@),
            Err(e) => command_of(text@) is None && is_schema_error_for(e, name@),
        },
{
    let table = match parse_table(text) {
        Ok(t) => t,
        Err(e) => {
            let details = e.to_string();
            return Err(schema_error(name, details.as_str()));
        },
    };
    let description = match string_field(&table, "description") {
        Some(d) => d,
        None => return Err(schema_error(name, "missing field `description` or it is not a string")),
    };
    let prompt = match string_field(&table, "prompt") {
        Some(p) => p,
        None => return Err(schema_error(name, "missing field `prompt` or it is not a string")),
    };
    Ok(Command { description, prompt })
}

/// The names of a batch of definition texts.
pub open spec fn source_names(sources: Seq<(String, String)>) -> Seq<Seq<char>> {
    sources.map_values(|p: (String, String)| p.0@)
}

/// Every text of the batch describes a command.
pub open spec fn all_well_formed(sources: Seq<(String, String)>) -> bool {
    forall|i: int| 0 <= i < sources.len() ==> (#[trigger] command_of(sources[i].1@)) is Some
}

/// `i` is the first entry of the batch whose text describes no command.
pub open spec fn first_malformed(sources: Seq<(String, String)>, i: int) -> bool {
    &&& 0 <= i < sources.len()
    &&& command_of(sources[i].1@) is None
    &&& forall|j: int| 0 <= j < i ==> (#[trigger] command_of(sources[j].1@)) is Some
}

/// What loading a batch of named definition texts yields: a map with one
/// entry per name, each the command its text describes, when every text
/// describes one; otherwise a schema error naming the first entry at fault.
pub open spec fn load_outcome(sources: Seq<(String, String)>, r: Result<CommandMap, CommandError>) -> bool {
    &&& (r is Ok <==> all_well_formed(sources))
    &&& match r {
        Ok(m) => {
            &&& m.wf()
            &&& m@.dom() == source_names(sources).to_set()
            &&& forall|i: int| 0 <= i < sources.len() ==>
                m@.contains_key(sources[i].0@) && Some(#[trigger] m@[sources[i].0@]) == command_of(sources[i].1@)
        },
        Err(e) => exists|i: int| first_malformed(sources, i) && is_schema_error_for(e, sources[i].0@),
    }
}

/// A batch in which some text lacks a required entry fails to load as a
/// whole: the result is a schema error, and no map is produced.
pub proof fn lemma_missing_field_fails_load(sources: Seq<(String, String)>, i: int, r: Result<CommandMap, CommandError>)
    requires
        0 <= i < sources.len(),
        toml_document(sources[i].1@) matches Some(doc) && (!doc.contains_key("description"@) || !doc.contains_key("prompt"@)),
        load_outcome(sources, r),
    ensures
        r matches Err(e) && exists|j: int| 0 <= j < sources.len() && is_schema_error_for(e, sources[j].0@),
{
    assert(command_of(sources[i].1@) is None);
}

/// Parses a batch of named definition texts into a map of commands.
///
/// Loading is all or nothing: either every text describes a command and the
/// map holds exactly one entry per name, or the first malformed entry is
/// reported and no map is produced.
pub fn load_commands(command_files: Vec<(String, String)>) -> (r: Result<CommandMap, CommandError>)
    requires
        source_names(command_files@).no_duplicates(),
    ensures
        load_outcome(command_files@, r),
{
    let ghost src = command_files@;
    let mut commands = CommandMap::new();
    let mut i: usize = 0;
    assert(source_names(src).take(0) =~= Seq::<Seq<char>>::empty());
    while i < command_files.len()
        invariant
            src == command_files@,
            source_names(src).no_duplicates(),
            i <= src.len(),
            commands.wf(),
            commands.keys() == source_names(src).take(i as int),
            forall|j: int| 0 <= j < i ==> (#[trigger] command_of(src[j].1@)) is Some,
            forall|j: int| 0 <= j < i ==> #[trigger] commands@.contains_key(src[j].0@),
            forall|j: int| 0 <= j < i ==> Some(#[trigger] commands@[src[j].0@]) == command_of(src[j].1@),
        decreases src.len() - i,
    {
        let name = &command_files[i].0;
        let text = &command_files[i].1;
        let command = match parse_command(name.as_str(), text.as_str()) {
            Ok(c) => c,
            Err(e) => {
                assert(first_malformed(src, i as int));
                return Err(e);
            },
        };
        proof {
            assert(source_names(src)[i as int] == name@);
            if commands@.contains_key(name@) {
                let j = choose|j: int| 0 <= j < commands.keys().len() && commands.keys()[j] == name@;
                assert(source_names(src)[j] == name@);
            }
        }
        let ghost before = commands;
        commands.insert_new(name.clone(), command);
        proof {
            assert(commands.keys() =~= source_names(src).take(i as int + 1));
            assert forall|j: int| 0 <= j < i + 1 implies #[trigger] commands@.contains_key(src[j].0@) by {
                if j < i {
                    assert(before@.contains_key(src[j].0@));
                } else {
                    assert(src[j].0@ == name@);
                }
            }
            assert forall|j: int| 0 <= j < i + 1 implies Some(#[trigger] commands@[src[j].0@]) == command_of(src[j].1@) by {
                if j < i {
                    assert(source_names(src)[j] == src[j].0@);
                    assert(src[j].0@ != name@);
                    assert(Some(before@[src[j].0@]) == command_of(src[j].1@));
                    assert(commands@[src[j].0@] == before@[src[j].0@]);
                } else {
                    assert(src[j].0@ == name@);
                    assert(src[j].1@ == text@);
                }
            }
        }
        i = i + 1;
    }
    proof {
        assert(commands.keys() =~= source_names(src));
        assert(commands@.dom() =~= source_names(src).to_set());
    }
    Ok(commands)
}

/// The loaded commands, keyed by name. Names are matched exactly.
#[derive(Debug)]
pub struct CommandMap {
    names: Vec<String>,
    commands: Vec<Command>,
}

impl CommandMap {
    /// The names, in the order in which they were loaded.
    pub closed spec fn keys(&self) -> Seq<Seq<char>> {
        self.names@.map_values(|s: String| s@)
    }

    /// Each name has exactly one command, and no name occurs twice.
    pub closed spec fn wf(&self) -> bool {
        &&& self.names@.len() == self.commands@.len()
        &&& self.keys().no_duplicates()
    }

    closed spec fn index_of_key(&self, k: Seq<char>) -> int {
        choose|i: int| 0 <= i < self.names@.len() && self.names@[i]@ == k
    }

    proof fn lemma_entry(&self, i: int)
        requires
            self.wf(),
            0 <= i < self.names@.len(),
        ensures
            self@.contains_key(self.names@[i]@),
            self@[self.names@[i]@] == self.commands@[i]@,
    {
        let k = self.names@[i]@;
        assert(self.keys()[i] == k);
        let j = self.index_of_key(k);
        assert(0 <= j < self.names@.len() && self.names@[j]@ == k);
        assert(self.keys()[j] == k);
    }

    /// An empty map of commands.
    pub fn new() -> (r: CommandMap)
        ensures
            r.wf(),
            r@ == Map::<Seq<char>, CommandModel>::empty(),
            r.keys() == Seq::<Seq<char>>::empty(),
    {
        let r = CommandMap { names: Vec::new(), commands: Vec::new() };
        assert(r@ =~= Map::<Seq<char>, CommandModel>::empty());
        assert(r.keys() =~= Seq::<Seq<char>>::empty());
        r
    }

    /// The number of commands.
    pub fn len(&self) -> (r: usize)
        requires
            self.wf(),
        ensures
            r == self@.len(),
    {
        proof {
            assert(self@.dom() =~= self.keys().to_set());
            self.keys().unique_seq_to_set();
        }
        self.names.len()
    }

    /// Whether no command is loaded.
    pub fn is_empty(&self) -> (r: bool)
        requires
            self.wf(),
        ensures
            r == (self@.len() == 0),
    {
        self.len() == 0
    }

    /// The command named exactly `name`, if there is one.
    pub fn get(&self, name: &str) -> (r: Option<&Command>)
        requires
            self.wf(),
        ensures
            match r {
                Some(c) => self@.contains_key(name@) && c@ == self@[name@],
                None => !self@.contains_key(name@),
            },
    {
        let key = String::from_str(name);
        let mut i: usize = 0;
        while i < self.names.len()
            invariant
                self.wf(),
                key@ == name@,
                i <= self.names@.len(),
                forall|j: int| 0 <= j < i ==> self.names@[j]@ != name@,
            decreases self.names@.len() - i,
        {
            if self.names[i] == key {
                proof {
                    self.lemma_entry(i as int);
                }
                return Some(&self.commands[i]);
            }
            i = i + 1;
        }
        None
    }

    /// Whether a command is named exactly `name`.
    pub fn contains_key(&self, name: &str) -> (r: bool)
        requires
            self.wf(),
        ensures
            r == self@.contains_key(name@),
    {
        self.get(name).is_some()
    }

    /// Adds a command under a name that is not yet in use.
    fn insert_new(&mut self, name: String, command: Command)
        requires
            old(self).wf(),
            !old(self)@.contains_key(name@),
        ensures
            final(self).wf(),
            final(self)@ == old(self)@.insert(name@, command@),
            final(self).keys() == old(self).keys().push(name@),
    {
        let ghost k = name@;
        let ghost c = command@;
        let ghost before = *self;
        self.names.push(name);
        self.commands.push(command);
        proof {
            assert(self.keys() =~= before.keys().push(k));
            assert forall|i: int| 0 <= i < before.keys().len() implies before.keys()[i] != k by {
                assert(before.names@[i]@ == before.keys()[i]);
            }
            assert(self.keys().no_duplicates());
            assert forall|q: Seq<char>| #[trigger] self.keys().contains(q) <==> (before.keys().contains(q) || q == k) by {
                if self.keys().contains(q) {
                    let j = choose|j: int| 0 <= j < self.keys().len() && self.keys()[j] == q;
                    if j < before.keys().len() {
                        assert(before.keys()[j] == q);
                    }
                }
                if before.keys().contains(q) {
                    let j = choose|j: int| 0 <= j < before.keys().len() && before.keys()[j] == q;
                    assert(self.keys()[j] == q);
                }
                if q == k {
                    assert(self.keys()[before.keys().len() as int] == k);
                }
            }
            assert forall|q: Seq<char>| #[trigger] self@.contains_key(q) implies self@[q] == before@.insert(k, c)[q] by {
                let j = self.index_of_key(q);
                self.lemma_entry(j);
                if j < before.names@.len() {
                    assert(before.names@[j] == self.names@[j]);
                    assert(before.commands@[j] == self.commands@[j]);
                    before.lemma_entry(j);
                }
            }
            assert(self@ =~= before@.insert(k, c));
        }
    }
}

impl View for CommandMap {
    type V = Map<Seq<char>, CommandModel>;

    closed spec fn view(&self) -> Map<Seq<char>, CommandModel> {
        Map::new(
            |k: Seq<char>| self.keys().contains(k),
            |k: Seq<char>| self.commands@[self.index_of_key(k)]@,
        )
    }
}

} // verus!
