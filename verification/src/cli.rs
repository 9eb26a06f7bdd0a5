//! The command line as values, and what an invocation asks for once the
//! configuration is taken into account.

use vstd::prelude::*;
use crate::config::Config;
use crate::engine::texts_of;
use crate::error::GimError;
use crate::modules::{recognized, ModuleKind};
use crate::output::{format_named, OutputFormat};
use crate::text::{to_chars, to_text};

verus! {

/// What was given on the command line.
#[derive(Debug)]
pub struct Cli {
    /// The subcommand; without one, the metrics are printed once.
    pub command: Option<Subcommand>,
    /// The configuration file to read instead of the one at the default
    /// place.
    pub config: Option<String>,
    /// Whether to read no configuration file at all.
    pub no_config: bool,
}

/// The subcommands.
#[derive(Debug)]
pub enum Subcommand {
    /// Print the metrics.
    Print {
        /// The modules to show, separated by commas.
        module: Option<String>,
        /// The output format: `json`, `table` or `raw`.
        output: Option<String>,
        /// Whether to print again and again.
        watch: bool,
    },
    /// Show the dashboard.
    Tui {
        /// The modules to show, separated by commas.
        module: Option<String>,
    },
}

/// What an invocation asks for.
#[derive(Debug)]
pub enum Invocation {
    Print { modules: Vec<String>, format: OutputFormat, watch: bool },
    Tui { modules: Vec<String> },
}

/// The pieces of a text between the separators: one more than there are
/// separators, some of them possibly empty.
pub open spec fn split_on(s: Seq<char>, sep: char) -> Seq<Seq<char>>
    decreases s.len(),
{
    if s.len() == 0 {
        seq![Seq::<char>::empty()]
    } else {
        let before = split_on(s.drop_last(), sep);
        if s.last() == sep {
            before.push(Seq::<char>::empty())
        } else {
            before.drop_last().push(before.last().push(s.last()))
        }
    }
}

/// The pieces joined again, the separator between each two.
pub open spec fn join_with(pieces: Seq<Seq<char>>, sep: char) -> Seq<char>
    decreases pieces.len(),
{
    if pieces.len() == 0 {
        Seq::<char>::empty()
    } else if pieces.len() == 1 {
        pieces[0]
    } else {
        join_with(pieces.drop_last(), sep).push(sep) + pieces.last()
    }
}

/// Splitting loses nothing: there is a piece at least, no piece holds the
/// separator, and the pieces joined by the separator are the text again.
pub proof fn split_then_join(s: Seq<char>, sep: char)
    ensures
        split_on(s, sep).len() >= 1,
        forall|i: int, j: int|
            0 <= i < split_on(s, sep).len() && 0 <= j < split_on(s, sep)[i].len() ==> (
            #[trigger] split_on(s, sep)[i][j]) != sep,
        join_with(split_on(s, sep), sep) == s,
    decreases s.len(),
{
    if s.len() > 0 {
        let rest = s.drop_last();
        split_then_join(rest, sep);
        let before = split_on(rest, sep);
        let now = split_on(s, sep);
        if s.last() == sep {
            assert(now.drop_last() =~= before);
            assert(join_with(now, sep) =~= join_with(before, sep).push(sep));
            assert(rest.push(sep) =~= s);
            assert forall|i: int, j: int| 0 <= i < now.len() && 0 <= j < now[i].len() implies (
            #[trigger] now[i][j]) != sep by {
                if i < before.len() {
                    assert(now[i] == before[i]);
                    assert(before[i][j] != sep);
                }
            }
        } else {
            let grown = before.last().push(s.last());
            assert(now.last() == grown);
            assert(now.drop_last() =~= before.drop_last());
            if before.len() == 1 {
                assert(join_with(before, sep) == before[0]);
                assert(join_with(now, sep) == grown);
            } else {
                assert(join_with(now, sep) =~= join_with(before.drop_last(), sep).push(sep)
                    + grown);
                assert(join_with(before, sep) =~= join_with(before.drop_last(), sep).push(sep)
                    + before.last());
                assert(join_with(now, sep) =~= join_with(before, sep).push(s.last()));
            }
            assert(rest.push(s.last()) =~= s);
            assert forall|i: int, j: int| 0 <= i < now.len() && 0 <= j < now[i].len() implies (
            #[trigger] now[i][j]) != sep by {
                if i < before.len() - 1 {
                    assert(now[i] == before[i]);
                    assert(before[i][j] != sep);
                } else {
                    if j < before.last().len() {
                        assert(before[before.len() - 1][j] != sep);
                    }
                }
            }
        }
    } else {
        assert(join_with(split_on(s, sep), sep) =~= s);
    }
}

/// The pieces of a text between the separators.
pub fn split(s: &str, sep: char) -> (pieces: Vec<String>)
    ensures
        texts_of(pieces@) == split_on(s@, sep),
{
    let chars = to_chars(s);
    let mut pieces: Vec<String> = Vec::new();
    let mut current: Vec<char> = Vec::new();
    let mut i: usize = 0;
    while i < chars.len()
        invariant
            i <= chars.len(),
            chars@ == s@,
            texts_of(pieces@).push(current@) =~= split_on(chars@.take(i as int), sep),
        decreases chars.len() - i,
    {
        let ghost before = split_on(chars@.take(i as int), sep);
        proof {
            assert(chars@.take(i + 1).drop_last() =~= chars@.take(i as int));
            assert(before.drop_last() =~= texts_of(pieces@));
        }
        if chars[i] == sep {
            pieces.push(to_text(&current));
            current = Vec::new();
            proof {
                assert(texts_of(pieces@) =~= before);
            }
        } else {
            current.push(chars[i]);
        }
        i += 1;
    }
    proof {
        assert(chars@.take(chars.len() as int) =~= chars@);
    }
    pieces.push(to_text(&current));
    proof {
        assert(texts_of(pieces@) =~= split_on(s@, sep));
    }
    pieces
}

impl Cli {
    /// The list of modules that was given, if one was.
    pub open spec fn module_list(&self) -> Option<Seq<char>> {
        match self.command {
            Some(Subcommand::Print { module: Some(list), .. }) => Some(list@),
            Some(Subcommand::Tui { module: Some(list) }) => Some(list@),
            _ => None,
        }
    }

    /// Whether the dashboard was asked for.
    pub open spec fn wants_tui(&self) -> bool {
        self.command matches Some(Subcommand::Tui { .. })
    }

    /// The names of the modules to show: those of the list that was given,
    /// else the configured defaults.
    pub open spec fn wanted_modules(&self, config: Config) -> Seq<Seq<char>> {
        match self.module_list() {
            Some(list) => split_on(list, ','),
            None => texts_of(config.general.default_modules@),
        }
    }

    /// The name of the output format: the one that was given, else the
    /// configured default.
    pub open spec fn wanted_format(&self, config: Config) -> Seq<char> {
        match self.command {
            Some(Subcommand::Print { output: Some(name), .. }) => name@,
            _ => config.print.output@,
        }
    }

    /// Whether to print again and again: where the flag was given or the
    /// configuration says so.
    pub open spec fn wanted_watch(&self, config: Config) -> bool {
        match self.command {
            Some(Subcommand::Print { watch, .. }) => watch || config.print.watch,
            _ => config.print.watch,
        }
    }

    /// Whether a configuration file is to be looked for.
    pub fn reads_config(&self) -> (r: bool)
        ensures
            r == !self.no_config,
    {
        !self.no_config
    }

    /// What the invocation asks for under the given configuration. It fails
    /// on the first name that is no module's; then, when printing, on a
    /// format name that stands for none.
    pub fn resolve(&self, config: &Config) -> (r: Result<Invocation, GimError>)
        ensures
            match r {
                Ok(Invocation::Tui { modules }) => self.wants_tui() && texts_of(modules@)
                    == self.wanted_modules(*config),
                Ok(Invocation::Print { modules, format, watch }) => !self.wants_tui() && texts_of(
                    modules@,
                ) == self.wanted_modules(*config) && format_named(self.wanted_format(*config))
                    == Some(format) && watch == self.wanted_watch(*config),
                Err(GimError::UnknownModule(name)) => exists|k: int|
                    0 <= k < self.wanted_modules(*config).len() && name@ == #[trigger] self.wanted_modules(
                        *config,
                    )[k] && !recognized(name@) && (forall|j: int|
                        0 <= j < k ==> recognized(#[trigger] self.wanted_modules(*config)[j])),
                Err(GimError::UnknownFormat(name)) => !self.wants_tui() && name@
                    == self.wanted_format(*config) && format_named(name@) is None,
                Err(_) => false,
            },
            r is Ok <==> (forall|k: int|
                0 <= k < self.wanted_modules(*config).len() ==> recognized(
                    #[trigger] self.wanted_modules(*config)[k],
                )) && (self.wants_tui() || format_named(self.wanted_format(*config)) is Some),
            r matches Err(GimError::UnknownFormat(_)) ==> forall|k: int|
                0 <= k < self.wanted_modules(*config).len() ==> recognized(
                    #[trigger] self.wanted_modules(*config)[k],
                ),
    {
        let list: Option<&String> = match &self.command {
            Some(Subcommand::Print { module: Some(list), .. }) => Some(list),
            Some(Subcommand::Tui { module: Some(list) }) => Some(list),
            _ => None,
        };
        let modules: Vec<String> = match list {
            Some(list) => split(list.as_str(), ','),
            None => {
                let mut copies: Vec<String> = Vec::new();
                let mut i: usize = 0;
                while i < config.general.default_modules.len()
                    invariant
                        i <= config.general.default_modules.len(),
                        copies.len() == i,
                        forall|j: int|
                            0 <= j < i ==> (#[trigger] copies@[j])@
                                == config.general.default_modules@[j]@,
                    decreases config.general.default_modules.len() - i,
                {
                    copies.push(config.general.default_modules[i].clone());
                    i += 1;
                }
                proof {
                    assert(texts_of(copies@) =~= texts_of(config.general.default_modules@));
                }
                copies
            },
        };
        let ghost wanted = self.wanted_modules(*config);
        let mut k: usize = 0;
        while k < modules.len()
            invariant
                k <= modules.len(),
                wanted == self.wanted_modules(*config),
                texts_of(modules@) == wanted,
                forall|j: int| 0 <= j < k ==> recognized(#[trigger] wanted[j]),
            decreases modules.len() - k,
        {
            match ModuleKind::parse(modules[k].as_str()) {
                Some(_) => {
                    proof {
                        assert(wanted[k as int] == modules@[k as int]@);
                    }
                },
                None => {
                    let name = modules[k].clone();
                    proof {
                        assert(self.wanted_modules(*config)[k as int] == name@);
                        assert(!recognized(name@));
                    }
                    return Err(GimError::UnknownModule(name));
                },
            }
            k += 1;
        }
        match &self.command {
            Some(Subcommand::Tui { .. }) => Ok(Invocation::Tui { modules }),
            Some(Subcommand::Print { output, watch, .. }) => {
                let name: &String = match output {
                    Some(name) => name,
                    None => &config.print.output,
                };
                match OutputFormat::parse(name.as_str()) {
                    Ok(format) => Ok(
                        Invocation::Print { modules, format, watch: *watch || config.print.watch },
                    ),
                    Err(e) => Err(e),
                }
            },
            None => {
                match OutputFormat::parse(config.print.output.as_str()) {
                    Ok(format) => Ok(
                        Invocation::Print { modules, format, watch: config.print.watch },
                    ),
                    Err(e) => Err(e),
                }
            },
        }
    }
}

} // verus!
