//! What the host is asked, what its answers count for, and what is said of commands.
use vstd::prelude::*;

use crate::cli::CliToggles;
use crate::command;
use crate::command::{CommandView, Finished, Level, OutputView, QueryView, ReplyView};
use crate::model;
use crate::model::{AppView, EthtoolView, Known, PhaseView};
use crate::number;
use crate::property_laws;
use crate::props;
use crate::text;
use crate::vf;

verus! {

// ---- Paths ----

/// A path is taken from a directory with one slash between them; one that begins with a slash
/// stands for itself.
pub proof fn law_paths(base: Seq<char>, path: Seq<char>)
    ensures
        path.len() > 0 && path[0] == '/' ==> model::joined(base, path) == path,
        (path.len() == 0 || path[0] != '/') && base.len() > 0 && base.last() != '/'
            ==> model::joined(base, path) == base + "/"@ + path,
        (path.len() == 0 || path[0] != '/') && base.len() > 0 && base.last() == '/'
            ==> model::joined(base, path) == base + path,
        model::joined(Seq::empty(), path) == path,
{
    reveal_strlit("/");
    assert("/"@ =~= seq!['/']);
    assert(Seq::<char>::empty() + path =~= path);
}

/// The network devices are where the variable for it says, or else under `/sys/class/net`. A run
/// begins for the interface that the command line names.
pub proof fn law_where_the_devices_are(
    ifname: Seq<char>,
    cli: CliToggles,
    vars: Seq<(Seq<char>, Seq<char>)>,
)
    ensures
        ({
            let a = model::initial(ifname, cli, vars);
            &&& a.ifname == ifname
            &&& a.cli == cli
            &&& a.root == match model::var_in(vars, "I40E_SYS_CLASS_NET_ROOT"@) {
                Some(root) => root,
                None => "/sys/class/net"@,
            }
        }),
{
}

// ---- What is asked ----

/// The query that has the output of `program`, run with `args`, as its answer.
pub open spec fn asks(program: Seq<char>, args: Seq<Seq<char>>) -> Option<QueryView> {
    Some(QueryView::Capture(CommandView { program, args }))
}

/// The directory of the physical function's network device.
pub open spec fn home(a: Known) -> Seq<char> {
    model::joined(a.root, a.ifname)
}

/// A run asks first for the properties of the link, then for the private flags, and then for what
/// is in the directory of the device.
pub proof fn law_first_questions(a: Known, reply: ReplyView)
    ensures
        ({
            let next = model::step(a.at(PhaseView::Start), reply);
            &&& next.query == asks(
                "udevadm"@,
                seq!["info"@, "-q"@, "property"@, "-p"@, home(a)],
            )
            &&& next.actions.len() == 0
            &&& next.app == a.at(PhaseView::LinkProps)
        }),
        ({
            let next = model::step(a.at(PhaseView::LinkProps), reply);
            &&& next.query == asks("ethtool"@, seq!["--show-priv-flags"@, a.ifname])
            &&& next.app.phase == PhaseView::PrivFlags
        }),
        ({
            let next = model::step(a.at(PhaseView::PrivFlags), reply);
            &&& next.query == Some(QueryView::ListDirectory(model::joined(home(a), "device"@)))
            &&& next.app == a.at(PhaseView::Directory)
        }),
{
}

/// The names that the network device of virtual function `idx` may have.
pub open spec fn device_names(a: Known, idx: nat) -> Seq<Seq<char>> {
    let long = a.ifname + "v"@ + number::decimal(idx);
    let short = vf::without_np(a.ifname) + "v"@ + number::decimal(idx);
    if vf::without_np(a.ifname) == a.ifname {
        seq![long]
    } else {
        seq![long, short]
    }
}

/// The network device of a virtual function is named after the physical function, with `v` and the
/// index behind it; where `np` is in that name, it is looked for without what follows too.
pub proof fn law_device_names(a: Known, idx: nat)
    ensures
        model::candidates(a, idx) == device_names(a, idx),
        model::candidate_paths(a, idx).len() == device_names(a, idx).len(),
        forall|i: int|
            0 <= i < device_names(a, idx).len() ==> #[trigger] model::candidate_paths(a, idx)[i]
                == model::joined(a.root, device_names(a, idx)[i]),
{
    let short = vf::without_np(a.ifname);
    let end = "v"@ + number::decimal(idx);
    let primary = a.ifname + "v"@ + number::decimal(idx);
    let secondary = short + "v"@ + number::decimal(idx);
    if primary == secondary {
        assert(primary.len() == a.ifname.len() + end.len());
        assert(secondary.len() == short.len() + end.len());
        assert(primary.take(a.ifname.len() as int) =~= a.ifname);
        assert(secondary.take(short.len() as int) =~= short);
    }
}

/// Each virtual function in turn has its network device looked for; where none is left, ip goes on
/// with those that are ready.
pub proof fn law_devices_are_looked_for(
    a: Known,
    actions: Seq<command::ActionView>,
    ready: Seq<model::VfView>,
    pending: Seq<usize>,
)
    ensures
        ({
            let next = model::to_next_ethtool(a, actions, ready, pending);
            if pending.len() > 0 {
                &&& next.actions == actions
                &&& next.app == a.at(
                    PhaseView::Netdev(
                        EthtoolView { ready, idx: pending[0], pending: pending.skip(1) },
                    ),
                )
                &&& next.query == Some(
                    QueryView::Exist(model::candidate_paths(a, pending[0] as nat)),
                )
            } else if a.settings.derive_vf_macs {
                &&& next.actions == actions + model::pf_ip_actions(a)
                &&& next.app == a.at(PhaseView::Address { ready })
                &&& next.query == Some(QueryView::ReadFile(model::joined(home(a), "address"@)))
            } else {
                next == model::to_next_ip(a, actions + model::pf_ip_actions(a), None, ready)
            }
        }),
{
}

/// The network device of a virtual function is the first of its names under which one exists.
pub proof fn law_first_that_exists(names: Seq<Seq<char>>, existing: Seq<bool>, i: int)
    requires
        0 <= i,
        forall|k: int| 0 <= k < i && k < existing.len() ==> !#[trigger] existing[k],
    ensures
        i < names.len() && i < existing.len() && existing[i] ==> model::first_existing(
            names,
            existing,
        ) == Some(names[i]),
        i >= names.len() || i >= existing.len() ==> model::first_existing(names, existing) is None,
    decreases i,
{
    if i > 0 && names.len() > 0 && existing.len() > 0 {
        assert(!existing[0]);
        assert forall|k: int| 0 <= k < i - 1 && k < existing.skip(1).len() implies !#[trigger] existing.skip(
            1,
        )[k] by {
            assert(existing.skip(1)[k] == existing[k + 1]);
        }
        law_first_that_exists(names.skip(1), existing.skip(1), i - 1);
    }
}

/// With the address of the physical function known, its device is asked for; without it, no address
/// is derived.
pub proof fn law_device_is_asked_for(
    a: Known,
    ready: Seq<model::VfView>,
    address: Seq<char>,
    device: Seq<char>,
)
    ensures
        ({
            let next = model::step(a.at(PhaseView::Address { ready }), ReplyView::Text(address));
            &&& next.query == Some(QueryView::TargetName(model::joined(home(a), "device"@)))
            &&& next.actions.len() == 0
            &&& next.app == a.at(PhaseView::Device { address, ready })
        }),
        model::step(a.at(PhaseView::Address { ready }), ReplyView::Nothing) == model::to_next_ip(
            a,
            Seq::empty(),
            None,
            ready,
        ),
        ({
            let here = a.at(PhaseView::Device { address, ready });
            let prefix = model::prefix_from(Some(address), Some(device));
            model::step(here, ReplyView::Text(device)) == model::to_next_ip(
                a,
                match prefix {
                    Some(p) => seq![
                        property_laws::notes(
                            "derived VF MAC prefix from "@ + a.ifname + ": "@ + p + "xx"@,
                        ),
                    ],
                    None => Seq::empty(),
                },
                prefix,
                ready,
            )
        }),
{
}

/// Where an existing address counts, all addresses are asked for once what comes before is done.
pub proof fn law_addresses_are_asked_for(
    a: Known,
    actions: Seq<command::ActionView>,
    prefix: Option<Seq<char>>,
    vfs: Seq<model::VfView>,
)
    requires
        model::to_next_ip(a, actions, prefix, vfs).query is Some,
    ensures
        ({
            let next = model::to_next_ip(a, actions, prefix, vfs);
            &&& next.query == asks("ip"@, seq!["-d"@, "link"@, "show"@, a.ifname])
            &&& next.actions == actions + model::before_mac_actions(a, vfs[0])
        }),
{
}

/// The address of one virtual function is settled, then the end of the workaround for its VLAN
/// tags, before the next one.
pub proof fn law_one_address_after_the_other(a: Known, v: model::IpView, reply: ReplyView)
    ensures
        model::step(a.at(PhaseView::AdminMac(v)), reply) == model::to_next_ip(
            a,
            model::asked_mac_actions(a, v.prefix, v.vf.idx as nat, model::captured(reply))
                + model::bounce_actions(a, v.vf.idx as nat),
            v.prefix,
            v.pending,
        ),
{
}

// ---- What answers count for ----

/// Whether a reply is of the kind that is waited for in `phase`.
pub open spec fn is_answer(phase: PhaseView, reply: ReplyView) -> bool {
    match phase {
        PhaseView::Start => false,
        PhaseView::LinkProps => reply is Output,
        PhaseView::PrivFlags => reply is Output,
        PhaseView::Directory => reply is Names,
        PhaseView::Netdev(_) => reply is Existing,
        PhaseView::NetdevAgain(_) => reply is Existing,
        PhaseView::Address { ready: _ } => reply is Text,
        PhaseView::Device { address: _, ready: _ } => reply is Text,
        PhaseView::AdminMac(_) => reply is Output,
        PhaseView::Done => false,
    }
}

/// A reply of another kind than the one that is waited for counts as none; so does the output of a
/// command that failed.
pub proof fn law_what_is_no_answer(s: AppView, reply: ReplyView)
    ensures
        !is_answer(s.phase, reply) ==> model::step(s, reply) == model::step(s, ReplyView::Nothing),
        reply matches ReplyView::Output(o) && !o.success ==> model::step(s, reply) == model::step(
            s,
            ReplyView::Nothing,
        ),
{
}

/// Of the output of a command that succeeded, only the text counts.
pub proof fn law_output_counts_as_text(s: AppView, o: OutputView, rc: i32)
    requires
        o.success,
    ensures
        model::captured(ReplyView::Output(o)) == Some(o.output),
        model::step(s, ReplyView::Output(o)) == model::step(
            s,
            ReplyView::Output(OutputView { rc, ..o }),
        ),
{
}

/// The properties of the link come to those that are known, line by line, and then all of them are
/// listed and those of the physical function set. Without an answer, nothing is added.
pub proof fn law_properties_of_the_link(a: Known, o: OutputView)
    requires
        o.success,
    ensures
        ({
            let next = model::step(a.at(PhaseView::LinkProps), ReplyView::Output(o));
            let lines = text::line_texts(o.output);
            let informed = Known { props: props::with_lines(a.props, lines), ..a };
            &&& next.actions == model::listing_actions(informed) + model::pf_ethtool_actions(
                informed,
            )
            &&& next.app.known.props == informed.props
            &&& next.app.known.ifname == a.ifname
            &&& next.app.known.root == a.root
        }),
        ({
            let next = model::step(a.at(PhaseView::LinkProps), ReplyView::Nothing);
            &&& next.actions == model::listing_actions(a) + model::pf_ethtool_actions(a)
            &&& next.app.known.props == a.props
            &&& next.app.known.ifname == a.ifname
            &&& next.app.known.root == a.root
        }),
{
}

/// What the private flags and the directory of the device say: without the one no flag is
/// supported, and without the other there are no virtual functions.
pub proof fn law_flags_and_links(a: Known, o: OutputView, names: Seq<Seq<char>>)
    requires
        o.success,
    ensures
        model::step(a.at(PhaseView::PrivFlags), ReplyView::Output(o)).actions
            == model::default_flag_actions(a, o.output) + model::asym_actions(a),
        model::step(a.at(PhaseView::PrivFlags), ReplyView::Nothing).actions
            == model::default_flag_actions(a, Seq::empty()) + model::asym_actions(a),
        model::step(a.at(PhaseView::Directory), ReplyView::Names(names))
            == model::to_next_ethtool(a, Seq::empty(), Seq::empty(), vf::indices_of(names)),
{
}

/// What is done once the network device of a virtual function has been looked for, where its VLAN
/// tags need no workaround: its properties are set, and it is ready with that device.
pub proof fn law_after_a_device(a: Known, v: EthtoolView, existing: Seq<bool>)
    ensures
        ({
            let dev = model::first_existing(device_names(a, v.idx as nat), existing);
            !model::has_vlan_quirk(a, v.idx as nat) ==> model::step(
                a.at(PhaseView::Netdev(v)),
                ReplyView::Existing(existing),
            ) == model::to_next_ethtool(
                a,
                model::vf_ethtool_actions(a, v.idx as nat, dev),
                v.ready.push(model::VfView { idx: v.idx, dev }),
                v.pending,
            )
        }),
        ({
            let dev = model::first_existing(device_names(a, v.idx as nat), existing);
            model::step(a.at(PhaseView::NetdevAgain(v)), ReplyView::Existing(existing))
                == model::to_next_ethtool(
                a,
                match dev {
                    Some(d) => model::rxvlan_off(a, d),
                    None => Seq::empty(),
                },
                v.ready.push(model::VfView { idx: v.idx, dev: None }),
                v.pending,
            )
        }),
{
    law_device_names(a, v.idx as nat);
}

/// The VLAN tags of a virtual function need the workaround where all need it, or where its own
/// property is `1`, or the common one where it has none of its own.
pub proof fn law_who_needs_the_vlan_quirk(a: Known, idx: nat)
    ensures
        a.settings.vlan_quirk ==> model::has_vlan_quirk(a, idx),
        !a.settings.vlan_quirk ==> (model::has_vlan_quirk(a, idx) <==> property_laws::value_for(
            a,
            idx,
            "VLAN_QUIRK"@,
        ) == Some("1"@)),
{
}

// ---- What is said ----

/// A dry run first says which properties there are, in the order of their names; another run does
/// not.
pub proof fn law_listing_of_properties(a: Known, i: int)
    ensures
        !a.settings.dry_run ==> model::listing_actions(a).len() == 0,
        a.settings.dry_run ==> {
            let said = model::listing_actions(a);
            let pairs = props::listing(a.props);
            &&& said.len() == pairs.len() + 1
            &&& said[0] == property_laws::notes(
                "DRY_RUN: Listing preset I40E_* environment variables:"@,
            )
            &&& 0 <= i < pairs.len() ==> said[i + 1] == property_laws::notes(
                "DRY_RUN: "@ + pairs[i].0 + "=\""@ + pairs[i].1 + "\""@,
            )
        },
{
}

/// A command is run as it is; a dry run says what it would have run.
pub proof fn law_commands(a: Known, program: Seq<char>, args: Seq<Seq<char>>)
    ensures
        !a.settings.dry_run ==> model::applied(a, program, args) == property_laws::runs(
            program,
            args,
        ),
        a.settings.dry_run ==> model::applied(a, program, args) == property_laws::notes(
            "DRY: "@ + command::rendered(CommandView { program, args }),
        ),
{
}

/// A command is shown as its words, with a space between each two.
pub proof fn law_rendered(program: Seq<char>, args: Seq<Seq<char>>, last: Seq<char>)
    ensures
        command::rendered(CommandView { program, args: Seq::empty() }) == program,
        command::rendered(CommandView { program, args: args.push(last) }) == command::rendered(
            CommandView { program, args },
        ) + " "@ + last,
{
    reveal_strlit(" ");
    assert(" "@ =~= seq![' ']);
    assert(args.push(last).drop_last() =~= args);
}

/// A line of the log begins with its level and the name of the helper.
pub proof fn law_log_lines(message: Seq<char>)
    ensures
        command::log_line(Level::Info, message) == "<6>i40e-postlink: "@ + message,
        command::log_line(Level::Warning, message) == "<4>i40e-postlink: "@ + message,
{
}

/// How a command ended is noted where it succeeded. Else a warning gives its code and what it
/// wrote, or says that it did not start.
pub proof fn law_reports(c: CommandView, o: OutputView, code: nat)
    ensures
        command::report_of(c, None) == property_laws::warns(
            "cmd failed (rc=1): "@ + command::rendered(c) + " :: failed to spawn command"@,
        ),
        o.success ==> command::report_of(c, Some(o)) == property_laws::notes(
            "applied: "@ + command::rendered(c),
        ),
        !o.success && o.rc == code ==> command::report_of(c, Some(o)) == property_laws::warns(
            "cmd failed (rc="@ + number::decimal(code) + "): "@ + command::rendered(c) + " :: "@
                + text::trimmed(o.output),
        ),
        !o.success && code > 0 && o.rc == -(code as int) ==> command::report_of(c, Some(o))
            == property_laws::warns(
            "cmd failed (rc="@ + (seq!['-'] + number::decimal(code)) + "): "@ + command::rendered(c)
                + " :: "@ + text::trimmed(o.output),
        ),
{
}

/// What a program wrote to its second output follows what it wrote to its first, on a line of its
/// own; nothing is put between them where either is empty.
pub proof fn law_merged_output(first: Seq<char>, second: Seq<char>)
    ensures
        command::merged(first, Seq::empty()) == first,
        command::merged(Seq::empty(), second) == second,
        first.len() > 0 && first.last() == '\n' ==> command::merged(first, second) == first
            + second,
        first.len() > 0 && first.last() != '\n' && second.len() > 0 ==> command::merged(
            first,
            second,
        ) == first + seq!['\n'] + second,
{
    assert(first + Seq::<char>::empty() =~= first);
    assert(Seq::<char>::empty() + second =~= second);
}

/// A program that ended gives its outputs and its code, which is 1 where a signal ended it. One that
/// did not start gives nothing.
pub proof fn law_output_of_a_program(f: Finished)
    ensures
        command::output_of(None) is None,
        command::output_of(Some(f)) matches Some(o) && o.success == f.success && (f.code is None
            ==> o.rc == 1) && (f.code matches Some(code) ==> o.rc == code) && o.output
            == command::merged(command::lossy_text(f.stdout@), command::lossy_text(f.stderr@)),
        vstd::utf8::valid_utf8(f.stdout@) ==> command::lossy_text(f.stdout@)
            == vstd::utf8::decode_utf8(f.stdout@),
{
}

} // verus!
