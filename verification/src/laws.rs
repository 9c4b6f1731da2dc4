//! What holds of the operations taken together, proved of their meaning on
//! the registry's mathematical value.

use vstd::prelude::*;
use vstd::seq_lib::to_multiset_contains;

use crate::cmd::{
    command_model, default_model, get_model, listed, ls_line, ls_model, mv_model, refuses, reports,
    rm_model, set_model, settled,
};
use crate::order::{lemma_filter_keeps_order, lemma_sorted_names, name_order, sorted_names};
use crate::outcome::FailureView;
use crate::registry::{ConfigView, DestinationView};
use crate::table::bindings;
use crate::text::tab;
use crate::workdir::{CwdError, WorkingDirView};

verus! {

/// Both printed forms agree on what follows the alias: a binding line is the
/// alias, a tab and the destination's own rendering.
pub proof fn binding_line_is_alias_then_rendering(d: DestinationView, alias: Seq<char>)
    ensures
        d.binding_line(alias) == alias + tab() + d.rendering(),
{
    match d {
        DestinationView::Local(path) => {},
        DestinationView::Remote { remote, path } => {
            assert(alias + tab() + path + tab() + remote =~= alias + tab() + (path + tab()
                + remote));
        },
    }
}

/// Binding an alias to a local path succeeds where the alias is free or
/// `force` is given, and asking for the alias then yields the path.
pub proof fn set_local_then_get(
    c: ConfigView,
    alias: Seq<char>,
    path: Seq<char>,
    force: bool,
    dir: WorkingDirView,
)
    ensures
        set_model(c, Some(alias), Some(path), force, None, Ok(dir)) is Ok <==> force
            || !c.aliases.contains_key(alias),
        set_model(c, Some(alias), Some(path), force, None, Ok(dir)) matches Ok(bound)
            ==> get_model(bound.config, alias) == reports(bound.config, seq![path]),
{
}

/// Binding an alias to a path on a remote host succeeds where the alias is
/// free or `force` is given, and asking for the alias then yields the path, a
/// tab and the host.
pub proof fn set_remote_then_get(
    c: ConfigView,
    alias: Seq<char>,
    path: Seq<char>,
    host: Seq<char>,
    force: bool,
    dir: WorkingDirView,
)
    ensures
        set_model(c, Some(alias), Some(path), force, Some(host), Ok(dir)) is Ok <==> force
            || !c.aliases.contains_key(alias),
        set_model(c, Some(alias), Some(path), force, Some(host), Ok(dir)) matches Ok(bound)
            ==> get_model(bound.config, alias) == reports(bound.config, seq![path + tab() + host]),
{
}

/// Without the working directory nothing is bound, whatever was given.
pub proof fn set_needs_the_working_directory(
    c: ConfigView,
    alias: Option<Seq<char>>,
    path: Option<Seq<char>>,
    force: bool,
    remote: Option<Seq<char>>,
    kind: CwdError,
)
    ensures
        set_model(c, alias, path, force, remote, Err(kind)) == refuses(
            FailureView::WorkingDir(kind),
        ),
{
}

/// Binding a bound alias again fails without `force` and leaves the first
/// path in place; with `force` it succeeds and the second path is in place.
pub proof fn set_again(
    c: ConfigView,
    alias: Seq<char>,
    first: Seq<char>,
    second: Seq<char>,
    force: bool,
    dir: WorkingDirView,
    later_dir: WorkingDirView,
)
    ensures
        set_model(c, Some(alias), Some(first), force, None, Ok(dir)) matches Ok(once) ==> ({
            let refused = set_model(
                once.config,
                Some(alias),
                Some(second),
                false,
                None,
                Ok(later_dir),
            );
            let forced = set_model(
                once.config,
                Some(alias),
                Some(second),
                true,
                None,
                Ok(later_dir),
            );
            &&& refused == refuses(FailureView::AliasExists)
            &&& settled(once.config, refused) == once.config
            &&& get_model(once.config, alias) == reports(once.config, seq![first])
            &&& forced is Ok
            &&& get_model(settled(once.config, forced), alias) == reports(
                settled(once.config, forced),
                seq![second],
            )
        }),
{
}

/// A rename to another name succeeds where the old name is bound and the new
/// one is free or `force` is given. The new name then leads where the old one
/// led, the old name is bound no more, the command of the old name is that
/// of the new name, and the default is as it was.
pub proof fn mv_carries_binding_and_command(
    c: ConfigView,
    from: Seq<char>,
    to: Seq<char>,
    force: bool,
)
    requires
        from != to,
    ensures
        mv_model(c, from, to, force) is Ok <==> c.aliases.contains_key(from) && (force
            || !c.aliases.contains_key(to)),
        mv_model(c, from, to, force) matches Ok(moved) ==> ({
            let after = moved.config;
            &&& get_model(after, to) == reports(after, seq![c.aliases[from].rendering()])
            &&& get_model(after, from) == refuses(FailureView::Absent)
            &&& command_model(after, from, None) == refuses(FailureView::AliasNotFound)
            &&& !after.commands.contains_key(from)
            &&& c.commands.contains_key(from) ==> after.commands.contains_key(to)
                && after.commands[to] == c.commands[from]
            &&& c.commands.contains_key(from) && !c.aliases[from].is_remote() ==> command_model(
                after,
                to,
                None,
            ) == reports(after, seq![c.commands[from]])
            &&& after.default == c.default
        }),
{
}

/// A rename onto a bound name fails without `force` and changes nothing; with
/// `force` it succeeds where the old name is bound, and the new name then
/// leads where the old one led.
pub proof fn mv_onto_bound_name(c: ConfigView, from: Seq<char>, to: Seq<char>)
    requires
        c.aliases.contains_key(to),
    ensures
        mv_model(c, from, to, false) == refuses(FailureView::TargetExists),
        settled(c, mv_model(c, from, to, false)) == c,
        mv_model(c, from, to, true) is Ok <==> c.aliases.contains_key(from),
        mv_model(c, from, to, true) matches Ok(moved) ==> moved.config.aliases[to]
            == c.aliases[from],
{
}

/// The listing names each bound alias that the flags ask for once, and no
/// other name, in strictly ascending order of the names; so it is the same
/// whatever the order in which the aliases were bound. Without flags the
/// local destinations are asked for, with `all` every destination, with
/// `remote_only` the remote ones.
pub proof fn ls_is_sorted_and_exact(c: ConfigView, show_paths: bool, all: bool, remote_only: bool)
    requires
        c.aliases.dom().finite(),
    ensures
        ({
            let names = sorted_names(c.aliases.dom()).filter(
                |name: Seq<char>| listed(c.aliases[name], all, remote_only),
            );
            &&& ls_model(c, show_paths, all, remote_only) == reports(
                c,
                names.map_values(|name: Seq<char>| ls_line(name, c.aliases[name], show_paths)),
            )
            &&& forall|i: int, j: int|
                0 <= i < j < names.len() ==> name_order()(#[trigger] names[i], #[trigger] names[j])
                    && names[i] != names[j]
            &&& forall|name: Seq<char>| #[trigger]
                names.contains(name) <==> c.aliases.contains_key(name) && listed(
                    c.aliases[name],
                    all,
                    remote_only,
                )
        }),
        forall|d: DestinationView| #[trigger] listed(d, false, false) <==> !d.is_remote(),
        forall|d: DestinationView| #[trigger] listed(d, true, false),
        forall|d: DestinationView| #[trigger] listed(d, false, true) <==> d.is_remote(),
{
    let keep = |name: Seq<char>| listed(c.aliases[name], all, remote_only);
    let sorted = sorted_names(c.aliases.dom());
    lemma_sorted_names(c.aliases.dom());
    lemma_filter_keeps_order(sorted, keep);
    assert forall|name: Seq<char>| sorted.contains(name) <==> c.aliases.contains_key(name) by {
        assert(sorted.contains(name) <==> sorted.to_set().contains(name));
    }
}

/// Binding two different aliases one after the other gives the same registry,
/// and so the same listing, in either order.
pub proof fn ls_ignores_binding_order(
    c: ConfigView,
    a: Seq<char>,
    x: DestinationView,
    b: Seq<char>,
    y: DestinationView,
    show_paths: bool,
    all: bool,
    remote_only: bool,
)
    requires
        a != b,
    ensures
        c.aliases.insert(a, x).insert(b, y) == c.aliases.insert(b, y).insert(a, x),
        ls_model(
            (ConfigView { aliases: c.aliases.insert(a, x).insert(b, y), ..c }),
            show_paths,
            all,
            remote_only,
        ) == ls_model(
            (ConfigView { aliases: c.aliases.insert(b, y).insert(a, x), ..c }),
            show_paths,
            all,
            remote_only,
        ),
{
    assert(c.aliases.insert(a, x).insert(b, y) =~= c.aliases.insert(b, y).insert(a, x));
}

/// Making a bound alias the default succeeds, and asking for the default then
/// reports that alias's binding. Where the alias is removed afterwards, asking
/// for the default fails because the default dangles, not because none is set.
pub proof fn default_then_rm(c: ConfigView, alias: Seq<char>)
    ensures
        default_model(c, Some(alias)) is Ok <==> c.aliases.contains_key(alias),
        default_model(c, Some(alias)) matches Ok(chosen) ==> ({
            &&& chosen.config.default == Some(alias)
            &&& default_model(chosen.config, None) == reports(
                chosen.config,
                seq![c.aliases[alias].binding_line(alias)],
            )
            &&& rm_model(chosen.config, alias) matches Ok(removed) && removed.config.default
                == Some(alias) && default_model(removed.config, None) == refuses(
                FailureView::DanglingDefault,
            )
        }),
{
}

/// A default that dangles and a default that is not set are told apart by
/// their messages too.
pub proof fn dangling_default_has_its_own_message()
    ensures
        FailureView::DanglingDefault.message() is Some,
        FailureView::DefaultNotSet.message() is Some,
        FailureView::DanglingDefault.message() != FailureView::DefaultNotSet.message(),
{
    reveal_strlit("Config error: default alias is not defined!");
    reveal_strlit("Default alias not set");
    assert("Config error: default alias is not defined!"@.len() != "Default alias not set"@.len());
}

/// Giving a command to an alias that leads to a local path succeeds, and
/// reading the alias's command then yields it.
pub proof fn command_set_then_read(c: ConfigView, alias: Seq<char>, text: Seq<char>)
    ensures
        command_model(c, alias, Some(text)) is Ok <==> c.aliases.contains_key(alias)
            && !c.aliases[alias].is_remote(),
        command_model(c, alias, Some(text)) matches Ok(given) ==> command_model(
            given.config,
            alias,
            None,
        ) == reports(given.config, seq![text]),
{
}

/// For an alias that leads to a remote host, reading its command and giving
/// it one both fail, and for the same reason.
pub proof fn command_refuses_remote(c: ConfigView, alias: Seq<char>, command: Option<Seq<char>>)
    requires
        c.aliases.contains_key(alias),
        c.aliases[alias].is_remote(),
    ensures
        command_model(c, alias, command) == refuses(FailureView::RemoteCommand),
{
}

/// Removing an alias leaves its command and the default as they were.
pub proof fn rm_keeps_command_and_default(c: ConfigView, alias: Seq<char>)
    ensures
        rm_model(c, alias) is Ok <==> c.aliases.contains_key(alias),
        rm_model(c, alias) matches Ok(removed) ==> ({
            &&& !removed.config.aliases.contains_key(alias)
            &&& removed.config.commands == c.commands
            &&& removed.config.default == c.default
        }),
{
}

/// Binding an alias, choosing the default and giving a command keep the
/// default and the commands with bound aliases, where they were so before.
pub proof fn set_default_command_keep_references_bound(
    c: ConfigView,
    alias: Option<Seq<char>>,
    path: Option<Seq<char>>,
    force: bool,
    remote: Option<Seq<char>>,
    cwd: Result<WorkingDirView, CwdError>,
    name: Seq<char>,
    command: Option<Seq<char>>,
)
    requires
        c.default_is_bound(),
        c.commands_are_bound(),
    ensures
        settled(c, set_model(c, alias, path, force, remote, cwd)).default_is_bound(),
        settled(c, set_model(c, alias, path, force, remote, cwd)).commands_are_bound(),
        settled(c, default_model(c, alias)).default_is_bound(),
        settled(c, default_model(c, alias)).commands_are_bound(),
        settled(c, command_model(c, name, command)).default_is_bound(),
        settled(c, command_model(c, name, command)).commands_are_bound(),
{
}

/// Removing and renaming may leave the default, and removing a command,
/// behind: the default dangles exactly where it named the alias that went,
/// and after a removal the alias's command is the one command without a
/// bound alias.
pub proof fn rm_and_mv_may_leave_references_behind(
    c: ConfigView,
    alias: Seq<char>,
    to: Seq<char>,
    force: bool,
)
    requires
        c.default_is_bound(),
        c.commands_are_bound(),
        alias != to,
    ensures
        rm_model(c, alias) matches Ok(removed) ==> ({
            &&& removed.config.default_is_bound() <==> c.default != Some(alias)
            &&& removed.config.commands_are_bound() <==> !c.commands.contains_key(alias)
        }),
        mv_model(c, alias, to, force) matches Ok(moved) ==> ({
            &&& moved.config.default_is_bound() <==> c.default != Some(alias)
            &&& moved.config.commands_are_bound()
        }),
{
    if let Ok(removed) = rm_model(c, alias) {
        if c.commands.contains_key(alias) {
            // The command of the alias that went is the one left behind.
            assert(removed.config.commands.dom().contains(alias));
        } else {
            assert forall|name: Seq<char>| removed.config.commands.dom().contains(
                name,
            ) implies removed.config.aliases.dom().contains(name) by {
                assert(c.aliases.dom().contains(name));
            }
        }
    }
    if let Ok(moved) = mv_model(c, alias, to, force) {
        assert forall|name: Seq<char>| moved.config.commands.dom().contains(
            name,
        ) implies moved.config.aliases.dom().contains(name) by {
            if name != to {
                assert(c.commands.dom().contains(name));
                assert(c.aliases.dom().contains(name));
            }
        }
    }
}

/// Each name that the pairs bind stands in one of them, beside the value
/// that it is bound to; and no other name is bound.
proof fn lemma_bindings<T>(pairs: Seq<(Seq<char>, T)>)
    ensures
        forall|i: int| 0 <= i < pairs.len() ==> bindings(pairs).contains_key(#[trigger] pairs[i].0),
        forall|name: Seq<char>| #[trigger]
            bindings(pairs).contains_key(name) ==> exists|i: int|
                0 <= i < pairs.len() && #[trigger] pairs[i] == (name, bindings(pairs)[name]),
    decreases pairs.len(),
{
    if pairs.len() > 0 {
        let front = pairs.drop_last();
        let last = pairs.last();
        lemma_bindings(front);
        assert forall|i: int| 0 <= i < pairs.len() implies bindings(pairs).contains_key(
            #[trigger] pairs[i].0,
        ) by {
            if i < front.len() {
                assert(front[i] == pairs[i]);
            }
        }
        assert forall|name: Seq<char>| #[trigger]
            bindings(pairs).contains_key(name) implies exists|i: int|
            0 <= i < pairs.len() && #[trigger] pairs[i] == (name, bindings(pairs)[name]) by {
            if name == last.0 {
                assert(pairs[pairs.len() - 1] == (name, bindings(pairs)[name]));
            } else {
                let i = choose|i: int|
                    0 <= i < front.len() && #[trigger] front[i] == (name, bindings(front)[name]);
                assert(pairs[i] == (name, bindings(pairs)[name]));
            }
        }
    }
}

/// Pairs with distinct names give the same table in whatever order they
/// come. So a registry that is handed out as pairs, kept by a store that
/// keeps no order, and built again from what the store hands back, is the
/// registry that it was.
pub proof fn pairs_in_any_order_give_the_same_table<T>(
    pairs: Seq<(Seq<char>, T)>,
    shuffled: Seq<(Seq<char>, T)>,
)
    requires
        forall|i: int, j: int| 0 <= i < j < pairs.len() ==> pairs[i].0 != pairs[j].0,
        shuffled.to_multiset() == pairs.to_multiset(),
    ensures
        bindings(shuffled) == bindings(pairs),
{
    lemma_bindings(pairs);
    lemma_bindings(shuffled);
    assert forall|pair: (Seq<char>, T)| pairs.contains(pair) <==> shuffled.contains(pair) by {
        to_multiset_contains(pairs, pair);
        to_multiset_contains(shuffled, pair);
    }
    assert forall|name: Seq<char>| bindings(shuffled).contains_key(name) implies bindings(
        pairs,
    ).contains_key(name) && bindings(shuffled)[name] == bindings(pairs)[name] by {
        // The pair that binds the name among the shuffled pairs is one of the
        // pairs, and there the only one with that name.
        let pair = (name, bindings(shuffled)[name]);
        assert(shuffled.contains(pair));
        let k = choose|k: int| 0 <= k < pairs.len() && pairs[k] == pair;
        assert(bindings(pairs).contains_key(pairs[k].0));
        let m = choose|m: int|
            0 <= m < pairs.len() && #[trigger] pairs[m] == (name, bindings(pairs)[name]);
        assert(k == m);
    }
    assert forall|name: Seq<char>| bindings(pairs).contains_key(name) implies bindings(
        shuffled,
    ).contains_key(name) by {
        let pair = (name, bindings(pairs)[name]);
        assert(pairs.contains(pair));
        let k = choose|k: int| 0 <= k < shuffled.len() && shuffled[k] == pair;
        assert(bindings(shuffled).contains_key(shuffled[k].0));
    }
    assert(bindings(shuffled) =~= bindings(pairs));
}

} // verus!
