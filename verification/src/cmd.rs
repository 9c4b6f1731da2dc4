//! The operations on a registry. Each one is stated twice: as a function on
//! the registry's mathematical value, which says what the operation means, and
//! as the executable function that carries it out.

use vstd::prelude::*;

use crate::cli::{CmdCommand, CmdDefault, CmdGet, CmdLs, CmdMv, CmdRm, CmdSet, Commands};
use crate::order::{lemma_sorted_names, sorted_names};
use crate::outcome::{Failure, FailureView, Outcome, OutcomeView};
use crate::registry::{CommandDef, Config, ConfigView, Destination, DestinationView};
use crate::table::lemma_table_finite;
use crate::workdir::{cwd_view, CwdError, WorkingDir, WorkingDirView};

verus! {

/// What a successful operation brings about: the registry after it, and what
/// it asks of the caller.
pub ghost struct Effect {
    pub config: ConfigView,
    pub out: OutcomeView,
}

/// What an operation means on a given registry: its effect, or the failure
/// with which it leaves the registry alone.
pub type Meaning = Result<Effect, FailureView>;

/// The operation leaves the registry `c` as it is and prints `lines`.
pub open spec fn reports(c: ConfigView, lines: Seq<Seq<char>>) -> Meaning {
    Ok(Effect { config: c, out: OutcomeView { lines, persist: false } })
}

/// The operation changes the registry to `c`, to be saved, and then prints
/// `lines`.
pub open spec fn changes(c: ConfigView, lines: Seq<Seq<char>>) -> Meaning {
    Ok(Effect { config: c, out: OutcomeView { lines, persist: true } })
}

/// The operation fails with `failure`.
pub open spec fn refuses(failure: FailureView) -> Meaning {
    Err(failure)
}

/// The registry after an operation on the registry `before`: the one that
/// the operation brought about, or on failure the one that was there.
pub open spec fn settled(before: ConfigView, model: Meaning) -> ConfigView {
    match model {
        Ok(effect) => effect.config,
        Err(_) => before,
    }
}

/// Whether the executable result `r`, with the registry `before` and `after`
/// the call, is what `model` prescribes: on success the prescribed outcome,
/// on failure the prescribed failure, and the prescribed registry either way.
pub open spec fn realizes(
    r: Result<Outcome, Failure>,
    before: ConfigView,
    after: ConfigView,
    model: Meaning,
) -> bool {
    &&& after == settled(before, model)
    &&& match model {
        Ok(effect) => r matches Ok(out) && out@ == effect.out,
        Err(failure) => r matches Err(e) && e@ == failure,
    }
}

/// `get`: the rendering of what `alias` leads to.
pub open spec fn get_model(c: ConfigView, alias: Seq<char>) -> Meaning {
    if c.aliases.contains_key(alias) {
        reports(c, seq![c.aliases[alias].rendering()])
    } else {
        refuses(FailureView::Absent)
    }
}

/// `set`: the alias that is bound, the one given or else the last segment of
/// the working directory.
pub open spec fn set_alias(alias: Option<Seq<char>>, dir: WorkingDirView) -> Option<Seq<char>> {
    match alias {
        Some(given) => Some(given),
        None => dir.name,
    }
}

/// `set`: the destination that is bound. A remote destination takes the path
/// given; a local one the path given or else the working directory.
pub open spec fn set_destination(
    path: Option<Seq<char>>,
    remote: Option<Seq<char>>,
    dir: WorkingDirView,
) -> DestinationView
    recommends
        remote is Some ==> path is Some,
{
    match remote {
        Some(host) => DestinationView::Remote { remote: host, path: path->0 },
        None => DestinationView::Local(
            match path {
                Some(given) => given,
                None => dir.path,
            },
        ),
    }
}

/// `set`: binds an alias to a destination and reports the binding. The
/// working directory is asked for in every case, so its failure is the
/// operation's, whatever was given.
pub open spec fn set_model(
    c: ConfigView,
    alias: Option<Seq<char>>,
    path: Option<Seq<char>>,
    force: bool,
    remote: Option<Seq<char>>,
    cwd: Result<WorkingDirView, CwdError>,
) -> Meaning {
    match cwd {
        Err(kind) => refuses(FailureView::WorkingDir(kind)),
        Ok(dir) => match set_alias(alias, dir) {
            None => refuses(FailureView::NoLastSegment),
            Some(name) => if remote is Some && path is None {
                refuses(FailureView::RemoteWithoutPath)
            } else if c.aliases.contains_key(name) && !force {
                refuses(FailureView::AliasExists)
            } else {
                let dest = set_destination(path, remote, dir);
                changes(
                    ConfigView { aliases: c.aliases.insert(name, dest), ..c },
                    seq![dest.binding_line(name)],
                )
            },
        },
    }
}

/// `ls`: whether a destination is listed. Local ones are, unless only remote
/// ones are asked for; remote ones are where all or only they are asked for.
pub open spec fn listed(d: DestinationView, all: bool, remote_only: bool) -> bool {
    if d.is_remote() {
        all || remote_only
    } else {
        !remote_only
    }
}

/// `ls`: the line for one alias.
pub open spec fn ls_line(alias: Seq<char>, d: DestinationView, show_paths: bool) -> Seq<char> {
    if show_paths {
        d.binding_line(alias)
    } else {
        alias
    }
}

/// `ls`: the lines for `names`, in their order, of those that are listed.
pub open spec fn listing(
    aliases: Map<Seq<char>, DestinationView>,
    names: Seq<Seq<char>>,
    show_paths: bool,
    all: bool,
    remote_only: bool,
) -> Seq<Seq<char>> {
    names.filter(|name: Seq<char>| listed(aliases[name], all, remote_only)).map_values(
        |name: Seq<char>| ls_line(name, aliases[name], show_paths),
    )
}

/// `ls`: the listed aliases in ascending order of their names.
pub open spec fn ls_model(c: ConfigView, show_paths: bool, all: bool, remote_only: bool)
    -> Meaning {
    reports(c, listing(c.aliases, sorted_names(c.aliases.dom()), show_paths, all, remote_only))
}

/// `rm`: unbinds `alias`. A command that belongs to it stays, and so does a
/// default that names it.
pub open spec fn rm_model(c: ConfigView, alias: Seq<char>) -> Meaning {
    if c.aliases.contains_key(alias) {
        changes(ConfigView { aliases: c.aliases.remove(alias), ..c }, Seq::empty())
    } else {
        refuses(FailureView::Absent)
    }
}

/// `mv`: the commands after a rename. The command of the old name, where it
/// has one, goes to the new name.
pub open spec fn mv_commands(commands: Map<Seq<char>, Seq<char>>, from: Seq<char>, to: Seq<char>)
    -> Map<Seq<char>, Seq<char>> {
    if commands.contains_key(from) {
        commands.remove(from).insert(to, commands[from])
    } else {
        commands
    }
}

/// `mv`: gives what `from` leads to, and its command, the name `to`. The new
/// name is looked at before the old one. The default is left as it is, also
/// where it names `from`.
pub open spec fn mv_model(c: ConfigView, from: Seq<char>, to: Seq<char>, force: bool) -> Meaning {
    if c.aliases.contains_key(to) && !force {
        refuses(FailureView::TargetExists)
    } else if !c.aliases.contains_key(from) {
        refuses(FailureView::SourceNotFound(from))
    } else {
        changes(
            ConfigView {
                aliases: c.aliases.remove(from).insert(to, c.aliases[from]),
                default: c.default,
                commands: mv_commands(c.commands, from, to),
            },
            Seq::empty(),
        )
    }
}

/// `default`: with an alias, makes it the default and reports its binding;
/// without, reports the binding of the default.
pub open spec fn default_model(c: ConfigView, alias: Option<Seq<char>>) -> Meaning {
    match alias {
        Some(name) => if c.aliases.contains_key(name) {
            changes(
                ConfigView { default: Some(name), ..c },
                seq![c.aliases[name].binding_line(name)],
            )
        } else {
            refuses(FailureView::UnknownAlias)
        },
        None => match c.default {
            None => refuses(FailureView::DefaultNotSet),
            Some(name) => if c.aliases.contains_key(name) {
                reports(c, seq![c.aliases[name].binding_line(name)])
            } else {
                refuses(FailureView::DanglingDefault)
            },
        },
    }
}

/// `command`: with a command, makes it the one of `alias`; without, prints
/// the command of `alias`, or nothing where it has none. Refused for an alias
/// that leads to a remote host.
pub open spec fn command_model(c: ConfigView, alias: Seq<char>, command: Option<Seq<char>>)
    -> Meaning {
    if !c.aliases.contains_key(alias) {
        refuses(FailureView::AliasNotFound)
    } else if c.aliases[alias].is_remote() {
        refuses(FailureView::RemoteCommand)
    } else {
        match command {
            Some(text) => changes(
                ConfigView { commands: c.commands.insert(alias, text), ..c },
                Seq::empty(),
            ),
            None => if c.commands.contains_key(alias) {
                reports(c, seq![c.commands[alias]])
            } else {
                reports(c, Seq::empty())
            },
        }
    }
}

/// An outcome with one line.
fn one_line(line: String, persist: bool) -> (r: Outcome)
    ensures
        r@ == (OutcomeView { lines: seq![line@], persist }),
{
    let mut lines: Vec<String> = Vec::new();
    lines.push(line);
    assert(lines.deep_view() =~= seq![line@]);
    Outcome { lines, persist }
}

/// An outcome without lines.
fn no_lines(persist: bool) -> (r: Outcome)
    ensures
        r@ == (OutcomeView { lines: Seq::empty(), persist }),
{
    let lines: Vec<String> = Vec::new();
    assert(lines.deep_view() =~= Seq::<Seq<char>>::empty());
    Outcome { lines, persist }
}

/// Shows what an alias leads to.
pub fn command_get(args: CmdGet, config: &Config) -> (r: Result<Outcome, Failure>)
    ensures
        realizes(r, config@, config@, get_model(config@, args.alias@)),
{
    match config.aliases.get(args.alias.as_str()) {
        Some(destination) => Ok(one_line(destination.render(), false)),
        None => Err(Failure::Absent),
    }
}

/// Binds an alias to a path, on this machine or on a remote host.
pub fn command_set(args: CmdSet, config: &mut Config, cwd: Result<WorkingDir, CwdError>) -> (r:
    Result<Outcome, Failure>)
    ensures
        realizes(
            r,
            old(config)@,
            final(config)@,
            set_model(
                old(config)@,
                args.alias.deep_view(),
                args.path.deep_view(),
                args.force,
                args.remote.deep_view(),
                cwd_view(cwd),
            ),
        ),
{
    let CmdSet { alias, path, force, remote } = args;
    let dir = match cwd {
        Ok(dir) => dir,
        Err(kind) => {
            return Err(Failure::WorkingDir(kind));
        },
    };
    let WorkingDir { path: dir_path, name: dir_name } = dir;
    let alias = match alias {
        Some(given) => given,
        None => match dir_name {
            Some(segment) => segment,
            None => {
                return Err(Failure::NoLastSegment);
            },
        },
    };
    let value = match remote {
        Some(host) => match path {
            Some(given) => Destination::Remote { remote: host, path: given },
            None => {
                return Err(Failure::RemoteWithoutPath);
            },
        },
        None => Destination::Local(
            match path {
                Some(given) => given,
                None => dir_path,
            },
        ),
    };
    if config.aliases.contains_key(alias.as_str()) && !force {
        return Err(Failure::AliasExists);
    }
    let line = value.binding_line(alias.as_str());
    let _ = config.aliases.insert(alias, value);
    Ok(one_line(line, true))
}

/// Lists the aliases in ascending order of their names.
pub fn command_ls(args: CmdLs, config: &Config) -> (r: Result<Outcome, Failure>)
    ensures
        realizes(
            r,
            config@,
            config@,
            ls_model(config@, args.show_paths, args.all, args.remote_only),
        ),
{
    let names = config.aliases.sorted_names();
    let ghost aliases = config@.aliases;
    let ghost shown = |name: Seq<char>| listed(aliases[name], args.all, args.remote_only);
    let ghost line_of = |name: Seq<char>| ls_line(name, aliases[name], args.show_paths);
    proof {
        lemma_table_finite(config.aliases);
        lemma_sorted_names(aliases.dom());
    }
    let mut lines: Vec<String> = Vec::new();
    let mut i: usize = 0;
    while i < names.len()
        invariant
            i <= names@.len(),
            aliases == config@.aliases,
            names.deep_view().to_set() == aliases.dom(),
            shown == |name: Seq<char>| listed(aliases[name], args.all, args.remote_only),
            line_of == |name: Seq<char>| ls_line(name, aliases[name], args.show_paths),
            lines.deep_view() == names.deep_view().take(i as int).filter(shown).map_values(
                line_of,
            ),
        decreases names@.len() - i,
    {
        let name = &names[i];
        let ghost before = names.deep_view().take(i as int);
        let ghost text = names.deep_view()[i as int];
        proof {
            assert(names.deep_view().take(i + 1) =~= before.push(text));
            before.lemma_filter_push(text, shown);
        }
        match config.aliases.get(name.as_str()) {
            Some(destination) => {
                let skip = if destination.is_remote() {
                    !args.all && !args.remote_only
                } else {
                    args.remote_only
                };
                if !skip {
                    let line = if args.show_paths {
                        destination.binding_line(name.as_str())
                    } else {
                        name.clone()
                    };
                    lines.push(line);
                    assert(before.filter(shown).push(text).map_values(line_of)
                        =~= before.filter(shown).map_values(line_of).push(line_of(text)));
                }
            },
            // Every name of the listing is bound.
            None => {},
        }
        i += 1;
    }
    assert(names.deep_view().take(i as int) =~= names.deep_view());
    Ok(Outcome { lines, persist: false })
}

/// Removes an alias. A command that belongs to it is not removed with it.
pub fn command_rm(args: CmdRm, config: &mut Config) -> (r: Result<Outcome, Failure>)
    ensures
        realizes(r, old(config)@, final(config)@, rm_model(old(config)@, args.alias@)),
{
    match config.aliases.remove(args.alias.as_str()) {
        Some(_) => Ok(no_lines(true)),
        None => Err(Failure::Absent),
    }
}

/// Renames an alias and carries its command along.
pub fn command_mv(args: CmdMv, config: &mut Config) -> (r: Result<Outcome, Failure>)
    ensures
        realizes(
            r,
            old(config)@,
            final(config)@,
            mv_model(old(config)@, args.alias_from@, args.alias_to@, args.force),
        ),
{
    let CmdMv { alias_from, alias_to, force } = args;
    if config.aliases.contains_key(alias_to.as_str()) && !force {
        return Err(Failure::TargetExists);
    }
    match config.aliases.remove(alias_from.as_str()) {
        Some(destination) => {
            let _ = config.aliases.insert(alias_to.clone(), destination);
        },
        None => {
            return Err(Failure::SourceNotFound(alias_from));
        },
    }
    match config.commands.remove(alias_from.as_str()) {
        Some(command) => {
            let _ = config.commands.insert(alias_to, command);
        },
        None => {},
    }
    Ok(no_lines(true))
}

/// Reads the default alias, or sets it.
pub fn command_default(args: CmdDefault, config: &mut Config) -> (r: Result<Outcome, Failure>)
    ensures
        realizes(
            r,
            old(config)@,
            final(config)@,
            default_model(old(config)@, args.alias.deep_view()),
        ),
{
    match args.alias {
        Some(alias) => {
            let line = match config.aliases.get(alias.as_str()) {
                Some(destination) => destination.binding_line(alias.as_str()),
                None => {
                    return Err(Failure::UnknownAlias);
                },
            };
            config.default = Some(alias);
            Ok(one_line(line, true))
        },
        None => match &config.default {
            Some(alias) => match config.aliases.get(alias.as_str()) {
                Some(destination) => Ok(
                    one_line(destination.binding_line(alias.as_str()), false),
                ),
                None => Err(Failure::DanglingDefault),
            },
            None => Err(Failure::DefaultNotSet),
        },
    }
}

/// Reads the command that belongs to an alias, or sets it.
pub fn command_cmd(args: CmdCommand, config: &mut Config) -> (r: Result<Outcome, Failure>)
    ensures
        realizes(
            r,
            old(config)@,
            final(config)@,
            command_model(old(config)@, args.alias@, args.command.deep_view()),
        ),
{
    let CmdCommand { alias, command } = args;
    match config.aliases.get(alias.as_str()) {
        Some(destination) => {
            if destination.is_remote() {
                return Err(Failure::RemoteCommand);
            }
        },
        None => {
            return Err(Failure::AliasNotFound);
        },
    }
    match command {
        Some(text) => {
            let _ = config.commands.insert(alias, CommandDef { on_enter: text });
            Ok(no_lines(true))
        },
        None => match config.commands.get(alias.as_str()) {
            Some(definition) => Ok(one_line(definition.on_enter.clone(), false)),
            None => Ok(no_lines(false)),
        },
    }
}

/// What a subcommand means on the registry `c`. Only `set` reads the working
/// directory.
pub open spec fn run_model(command: Commands, c: ConfigView, cwd: Result<WorkingDirView, CwdError>)
    -> Meaning {
    match command {
        Commands::Command(args) => command_model(c, args.alias@, args.command.deep_view()),
        Commands::Default(args) => default_model(c, args.alias.deep_view()),
        Commands::Get(args) => get_model(c, args.alias@),
        Commands::Ls(args) => ls_model(c, args.show_paths, args.all, args.remote_only),
        Commands::Mv(args) => mv_model(c, args.alias_from@, args.alias_to@, args.force),
        Commands::Rm(args) => rm_model(c, args.alias@),
        Commands::Assign(args) => set_model(
            c,
            args.alias.deep_view(),
            args.path.deep_view(),
            args.force,
            args.remote.deep_view(),
            cwd,
        ),
    }
}

/// Carries out one subcommand on a registry that the caller has loaded. On
/// success the caller saves the registry where the outcome asks for it, and
/// then prints the outcome's lines; on failure it prints the failure's
/// message, where it has one, and ends with [`crate::outcome::FAILURE_STATUS`].
pub fn run(command: Commands, config: &mut Config, cwd: Result<WorkingDir, CwdError>) -> (r:
    Result<Outcome, Failure>)
    ensures
        realizes(r, old(config)@, final(config)@, run_model(command, old(config)@, cwd_view(cwd))),
{
    match command {
        Commands::Command(args) => command_cmd(args, config),
        Commands::Default(args) => command_default(args, config),
        Commands::Get(args) => command_get(args, config),
        Commands::Ls(args) => command_ls(args, config),
        Commands::Mv(args) => command_mv(args, config),
        Commands::Rm(args) => command_rm(args, config),
        Commands::Assign(args) => command_set(args, config, cwd),
    }
}

} // verus!
