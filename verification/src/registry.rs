//! The data model: destinations, command bindings and the registry itself.

use vstd::prelude::*;

use crate::table::Table;
use crate::text::{push_tab, tab};

verus! {

/// Where an alias leads: a path on this machine, or a path on a named host.
#[derive(Debug, PartialEq, Eq)]
pub enum Destination {
    Local(String),
    Remote { remote: String, path: String },
}

/// The mathematical value of a [`Destination`].
pub ghost enum DestinationView {
    Local(Seq<char>),
    Remote { remote: Seq<char>, path: Seq<char> },
}

impl View for Destination {
    type V = DestinationView;

    open spec fn view(&self) -> DestinationView {
        match self {
            Destination::Local(path) => DestinationView::Local(path@),
            Destination::Remote { remote, path } => DestinationView::Remote {
                remote: remote@,
                path: path@,
            },
        }
    }
}

impl DestinationView {
    /// Whether the destination lies on a remote host.
    pub open spec fn is_remote(self) -> bool {
        self is Remote
    }

    /// The text that stands for a destination on a line of its own: the path,
    /// followed for a remote destination by a tab and the host.
    pub open spec fn rendering(self) -> Seq<char> {
        match self {
            DestinationView::Local(path) => path,
            DestinationView::Remote { remote, path } => path + tab() + remote,
        }
    }

    /// The line that reports a binding: the alias, a tab and the path,
    /// followed for a remote destination by a tab and the host.
    pub open spec fn binding_line(self, alias: Seq<char>) -> Seq<char> {
        match self {
            DestinationView::Local(path) => alias + tab() + path,
            DestinationView::Remote { remote, path } => alias + tab() + path + tab() + remote,
        }
    }
}

impl Clone for Destination {
    fn clone(&self) -> (r: Self)
        ensures
            r@ == self@,
    {
        match self {
            Destination::Local(path) => Destination::Local(path.clone()),
            Destination::Remote { remote, path } => Destination::Remote {
                remote: remote.clone(),
                path: path.clone(),
            },
        }
    }
}

impl Destination {
    /// Whether the destination lies on a remote host.
    pub fn is_remote(&self) -> (r: bool)
        ensures
            r == self@.is_remote(),
    {
        match self {
            Destination::Local(_) => false,
            Destination::Remote { .. } => true,
        }
    }

    /// The destination as it is printed on a line of its own.
    pub fn render(&self) -> (r: String)
        ensures
            r@ == self@.rendering(),
    {
        match self {
            Destination::Local(path) => path.clone(),
            Destination::Remote { remote, path } => {
                let mut line = path.clone();
                push_tab(&mut line);
                line.append(remote.as_str());
                line
            },
        }
    }

    /// The line that reports the binding of `alias` to this destination.
    pub fn binding_line(&self, alias: &str) -> (r: String)
        ensures
            r@ == self@.binding_line(alias@),
    {
        let mut line = String::from_str(alias);
        push_tab(&mut line);
        match self {
            Destination::Local(path) => {
                line.append(path.as_str());
            },
            Destination::Remote { remote, path } => {
                line.append(path.as_str());
                push_tab(&mut line);
                line.append(remote.as_str());
            },
        }
        line
    }
}

/// The command that the shell wrapper runs when an alias is entered.
#[derive(Debug, PartialEq, Eq)]
pub struct CommandDef {
    pub on_enter: String,
}

impl View for CommandDef {
    type V = Seq<char>;

    open spec fn view(&self) -> Seq<char> {
        self.on_enter@
    }
}

impl Clone for CommandDef {
    fn clone(&self) -> (r: Self)
        ensures
            r@ == self@,
    {
        CommandDef { on_enter: self.on_enter.clone() }
    }
}

/// The registry: what each alias leads to, which alias is the default, and
/// which command belongs to which alias.
///
/// The type keeps the names of each table distinct and nothing more. That the
/// default names a bound alias, and that commands belong to bound aliases, is
/// for the operations to check: the store behind a registry may have been
/// edited by hand.
#[derive(Debug)]
pub struct Config {
    pub aliases: Table<Destination>,
    pub default: Option<String>,
    pub commands: Table<CommandDef>,
}

/// The mathematical value of a [`Config`].
pub ghost struct ConfigView {
    pub aliases: Map<Seq<char>, DestinationView>,
    pub default: Option<Seq<char>>,
    pub commands: Map<Seq<char>, Seq<char>>,
}

impl ConfigView {
    /// The registry without aliases, default or commands.
    pub open spec fn empty() -> ConfigView {
        ConfigView { aliases: Map::empty(), default: None, commands: Map::empty() }
    }

    /// Whether the default, where one is set, names a bound alias.
    pub open spec fn default_is_bound(self) -> bool {
        self.default matches Some(alias) ==> self.aliases.contains_key(alias)
    }

    /// Whether every command belongs to a bound alias.
    pub open spec fn commands_are_bound(self) -> bool {
        self.commands.dom().subset_of(self.aliases.dom())
    }
}

impl View for Config {
    type V = ConfigView;

    open spec fn view(&self) -> ConfigView {
        ConfigView {
            aliases: self.aliases@,
            default: self.default.deep_view(),
            commands: self.commands@,
        }
    }
}

impl Default for Config {
    /// The registry that stands for a store that does not exist yet.
    fn default() -> (r: Self)
        ensures
            r@ == ConfigView::empty(),
    {
        Config { aliases: Table::new(), default: None, commands: Table::new() }
    }
}

} // verus!
