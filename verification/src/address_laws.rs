//! What the addresses of the virtual functions are, and when they are set.
use vstd::prelude::*;

use crate::command::ActionView;
use crate::laws;
use crate::mac;
use crate::model;
use crate::model::{Known, VfView};
use crate::number;
use crate::property_laws;
use crate::text;
use crate::text_laws;
use crate::vf;

verus! {

/// The octets of the address derived for virtual function `idx`: those of the physical function,
/// made locally administered and unicast, with the number of the physical function in the low half
/// of the fifth, and the index as the sixth.
pub open spec fn derived(o: Seq<u8>, function: u8, idx: u8) -> Seq<u8> {
    seq![
        ((o[0] | 0x02) & 0xfe) as u8,
        o[1],
        o[2],
        o[3],
        ((o[4] & 0xf0) | (function & 0x0f)) as u8,
        idx,
    ]
}

/// What is done to give virtual function `idx` the address `address` and to say so.
pub open spec fn sets_derived(a: Known, idx: nat, address: Seq<char>) -> Seq<ActionView> {
    seq![
        property_laws::handle_command(a, idx, "mac"@, address),
        property_laws::notes("VF "@ + number::decimal(idx) + ": set derived MAC "@ + address),
    ]
}

/// Whether `output`, the administrative addresses, gives one of an adapter for virtual function
/// `idx`.
pub open spec fn has_address(output: Option<Seq<char>>, idx: nat) -> bool {
    match output {
        Some(t) => match vf::admin_mac(t, idx) {
            Some(address) => mac::is_usable_mac(address),
            None => false,
        },
        None => false,
    }
}

proof fn lemma_sets_derived(a: Known, o: Seq<u8>, function: u8, idx: u8)
    requires
        !a.settings.dry_run,
        o.len() == 6,
    ensures
        model::derived_mac_actions(
            a,
            idx as nat,
            mac::mac_prefix_text(mac::derived_octets(o, function)),
        ) == sets_derived(a, idx as nat, mac::mac_text(derived(o, function, idx))),
{
    let d = derived(o, function, idx);
    let address = mac::mac_text(d);
    let p = mac::mac_prefix_text(mac::derived_octets(o, function));
    assert(mac::derived_octets(o, function).update(5, idx) =~= d);
    assert(p + number::hex_octet(idx as nat) =~= address);
    mac::law_mac_reads_back(d);
    mac::law_local_unicast_bits(o[0]);
    assert(d.update(0, mac::local_unicast(d[0])) =~= d);
    assert(mac::sanitized(address) == Some(address));
    let handle = seq!["link"@, "set"@, "dev"@, a.ifname, "vf"@, number::decimal(idx as nat)];
    assert(handle + seq!["mac"@, address] =~= seq![
        "link"@,
        "set"@,
        "dev"@,
        a.ifname,
        "vf"@,
        number::decimal(idx as nat),
        "mac"@,
        address,
    ]);
    assert(model::derived_mac_actions(a, idx as nat, p) =~= sets_derived(a, idx as nat, address));
}

/// Where a physical function has the address that `octets` write, and the number `function`, the
/// derived addresses begin as its own does, but for the bits that are settled.
pub proof fn law_prefix(
    before: Seq<char>,
    octets: Seq<u8>,
    after: Seq<char>,
    device: Option<Seq<char>>,
)
    requires
        octets.len() == 6,
        forall|i: int| 0 <= i < before.len() ==> text::is_space(#[trigger] before[i]),
        forall|i: int| 0 <= i < after.len() ==> text::is_space(#[trigger] after[i]),
    ensures
        model::prefix_from(Some(before + mac::mac_text(octets) + after), device) == Some(
            mac::mac_prefix_text(mac::derived_octets(octets, model::function_number(device))),
        ),
        model::prefix_from(None, device) is None,
{
    let address = mac::mac_text(octets);
    mac::law_mac_reads_back(octets);
    lemma_mac_text_is_bare(octets);
    lemma_trim(before, address, after);
    assert(text::trimmed(address) == address);
}

proof fn lemma_mac_text_is_bare(o: Seq<u8>)
    requires
        o.len() == 6,
    ensures
        mac::mac_text(o).len() == 17,
        !text::is_space(mac::mac_text(o)[0]),
        !text::is_space(mac::mac_text(o).last()),
{
    let t = mac::mac_text(o);
    number::law_hex_octet_reads_back(o[0]);
    number::law_hex_octet_reads_back(o[1]);
    number::law_hex_octet_reads_back(o[2]);
    number::law_hex_octet_reads_back(o[3]);
    number::law_hex_octet_reads_back(o[4]);
    number::law_hex_octet_reads_back(o[5]);
    let first = number::hex_octet(o[0] as nat);
    let last = number::hex_octet(o[5] as nat);
    assert(t[0] == first[0]);
    assert(t[16] == last[1]);
    assert(number::hex_digit(first[0]) is Some);
    assert(number::hex_digit(last[1]) is Some);
}

proof fn lemma_trim(before: Seq<char>, core: Seq<char>, after: Seq<char>)
    requires
        core.len() > 0,
        !text::is_space(core[0]),
        !text::is_space(core.last()),
        forall|i: int| 0 <= i < before.len() ==> text::is_space(#[trigger] before[i]),
        forall|i: int| 0 <= i < after.len() ==> text::is_space(#[trigger] after[i]),
    ensures
        text::trimmed(before + core + after) == core,
        text::trimmed(core) == core,
{
    text_laws::law_trimmed(before, core, after);
    text_laws::law_trimmed(Seq::empty(), core, Seq::empty());
    assert(Seq::empty() + core + Seq::empty() =~= core);
}

/// Where addresses are derived, a virtual function gets its derived one, whatever the host says of
/// the addresses that there are: unless that is one of an adapter for this virtual function. That
/// one is kept, and only noted.
pub proof fn law_derived_unless_there(
    a: Known,
    octets: Seq<u8>,
    function: u8,
    idx: u8,
    output: Option<Seq<char>>,
)
    requires
        !a.settings.dry_run,
        octets.len() == 6,
    ensures
        ({
            let prefix = mac::mac_prefix_text(mac::derived_octets(octets, function));
            let done = model::asked_mac_actions(a, Some(prefix), idx as nat, output);
            if has_address(output, idx as nat) {
                done == seq![
                    property_laws::notes(
                        "VF "@ + number::decimal(idx as nat) + ": keep existing admin MAC ("@
                            + vf::admin_mac(output->0, idx as nat)->0 + ")"@,
                    ),
                ]
            } else {
                done == sets_derived(
                    a,
                    idx as nat,
                    mac::mac_text(derived(octets, function, idx)),
                )
            }
        }),
{
    lemma_sets_derived(a, octets, function, idx);
}

/// Where existing addresses do not count, a virtual function gets its derived one without asking;
/// where none are derived, it gets none.
pub proof fn law_derived_without_asking(a: Known, octets: Seq<u8>, function: u8, idx: u8)
    requires
        !a.settings.dry_run,
        octets.len() == 6,
    ensures
        ({
            let prefix = mac::mac_prefix_text(mac::derived_octets(octets, function));
            let done = model::unasked_mac_actions(a, Some(prefix), idx as nat);
            if a.settings.derive_vf_macs {
                done == sets_derived(
                    a,
                    idx as nat,
                    mac::mac_text(derived(octets, function, idx)),
                )
            } else {
                done.len() == 0
            }
        }),
        model::unasked_mac_actions(a, None, idx as nat).len() == 0,
{
    lemma_sets_derived(a, octets, function, idx);
}

/// No address is derived for an index that takes more than an octet: nothing is done for it, and an
/// address of an adapter that is there is still only noted.
pub proof fn law_nothing_derived_above_255(
    a: Known,
    octets: Seq<u8>,
    function: u8,
    idx: nat,
    output: Option<Seq<char>>,
)
    requires
        octets.len() == 6,
        idx > 255,
    ensures
        ({
            let prefix = mac::mac_prefix_text(mac::derived_octets(octets, function));
            &&& model::unasked_mac_actions(a, Some(prefix), idx).len() == 0
            &&& model::asked_mac_actions(a, Some(prefix), idx, output).len() == if has_address(
                output,
                idx,
            ) {
                1nat
            } else {
                0nat
            }
        }),
{
    let text = mac::mac_text(octets);
    mac::law_mac_reads_back(octets);
    mac::law_no_derived_mac_above_255(text, function, idx);
    reveal(mac::derived_mac);
}

/// The addresses that there are are asked for where addresses are derived and existing ones count,
/// for every virtual function in turn; else nothing is asked, and ip goes through all of them.
pub proof fn law_when_addresses_are_asked_for(
    a: Known,
    actions: Seq<ActionView>,
    prefix: Option<Seq<char>>,
    vfs: Seq<VfView>,
)
    ensures
        ({
            let next = model::to_next_ip(a, actions, prefix, vfs);
            if vfs.len() > 0 && prefix is Some && a.settings.derive_vf_macs
                && a.settings.skip_if_vf_mac_set {
                &&& next.query is Some
                &&& next.app.phase matches model::PhaseView::AdminMac(v) && v.vf == vfs[0]
                    && v.pending == vfs.skip(1) && v.prefix == prefix
            } else {
                &&& next.query is None
                &&& next.actions.last() == laws::completion(a)
                &&& next.actions.drop_last() == actions + model::unasked_vfs_actions(
                    a,
                    prefix,
                    vfs,
                )
            }
        }),
{
    let done = actions + model::unasked_vfs_actions(a, prefix, vfs);
    assert(done.push(laws::completion(a)).drop_last() =~= done);
}

/// What is done for several virtual functions is what is done for the first ones, and then what is
/// done for the others.
pub proof fn law_vfs_one_after_the_other(
    a: Known,
    prefix: Option<Seq<char>>,
    some: Seq<VfView>,
    others: Seq<VfView>,
)
    ensures
        model::unasked_vfs_actions(a, prefix, some + others) == model::unasked_vfs_actions(
            a,
            prefix,
            some,
        ) + model::unasked_vfs_actions(a, prefix, others),
    decreases some.len(),
{
    let rest = model::unasked_vfs_actions(a, prefix, others);
    if some.len() == 0 {
        assert(some + others =~= others);
        lemma_nothing_before(rest);
    } else {
        assert((some + others).skip(1) =~= some.skip(1) + others);
        assert((some + others)[0] == some[0]);
        law_vfs_one_after_the_other(a, prefix, some.skip(1), others);
        lemma_order(
            model::unasked_vf_actions(a, prefix, some[0]),
            model::unasked_vfs_actions(a, prefix, some.skip(1)),
            rest,
        );
    }
}

proof fn lemma_nothing_before(rest: Seq<ActionView>)
    ensures
        Seq::empty() + rest == rest,
{
}

proof fn lemma_order(x: Seq<ActionView>, y: Seq<ActionView>, z: Seq<ActionView>)
    ensures
        x + (y + z) == x + y + z,
{
}

/// What is done for one virtual function: ip up to its derived address, that address, and the end
/// of the workaround for its VLAN tags, where it needs one.
pub proof fn law_one_vf(a: Known, prefix: Option<Seq<char>>, vf: VfView)
    ensures
        model::unasked_vfs_actions(a, prefix, seq![vf]) == model::before_mac_actions(a, vf)
            + model::unasked_mac_actions(a, prefix, vf.idx as nat) + model::bounce_actions(
            a,
            vf.idx as nat,
        ),
{
    assert(seq![vf].skip(1) =~= Seq::empty());
    reveal_with_fuel(model::unasked_vfs_actions, 2);
    let done = model::unasked_vf_actions(a, prefix, vf);
    lemma_nothing_after(done);
}

proof fn lemma_nothing_after(done: Seq<ActionView>)
    ensures
        done + Seq::empty() == done,
{
}

/// The addresses of one adapter: six octets, of which one is not zero, and the first of which is
/// even.
pub proof fn law_usable_addresses(s: Seq<char>)
    ensures
        mac::mac_octets(s) is None ==> !mac::is_usable_mac(s),
        mac::mac_octets(s) matches Some(o) ==> o.len() == 6 && (mac::is_usable_mac(s) <==> o[0] % 2
            == 0 && !(o[0] == 0 && o[1] == 0 && o[2] == 0 && o[3] == 0 && o[4] == 0 && o[5] == 0)),
{
    match mac::mac_octets(s) {
        Some(o) => {
            let first = o[0];
            assert((first & 1 == 0) == (first % 2 == 0)) by (bit_vector);
            let zeros = seq![0u8, 0u8, 0u8, 0u8, 0u8, 0u8];
            let ones = seq![0xffu8, 0xffu8, 0xffu8, 0xffu8, 0xffu8, 0xffu8];
            if o[0] == 0 && o[1] == 0 && o[2] == 0 && o[3] == 0 && o[4] == 0 && o[5] == 0 {
                assert(o =~= zeros);
            } else {
                assert(o != zeros) by {
                    assert(zeros[0] == 0 && zeros[1] == 0 && zeros[2] == 0 && zeros[3] == 0
                        && zeros[4] == 0 && zeros[5] == 0);
                }
            }
            assert(ones[0] == 0xff);
        },
        None => {},
    }
}

/// An address is read from six pairs of hexadecimal digits, of either case, with a colon between
/// each two, and with whitespace around it or not.
pub proof fn law_addresses_are_read(before: Seq<char>, d: Seq<char>, after: Seq<char>)
    requires
        d.len() == 12,
        forall|i: int| 0 <= i < 12 ==> number::hex_digit(#[trigger] d[i]) is Some,
        forall|i: int| 0 <= i < before.len() ==> text::is_space(#[trigger] before[i]),
        forall|i: int| 0 <= i < after.len() ==> text::is_space(#[trigger] after[i]),
    ensures
        ({
            let t = seq![
                d[0],
                d[1],
                ':',
                d[2],
                d[3],
                ':',
                d[4],
                d[5],
                ':',
                d[6],
                d[7],
                ':',
                d[8],
                d[9],
                ':',
                d[10],
                d[11],
            ];
            let octet = |i: int|
                number::hex_digit(d[2 * i])->0 * 16 + number::hex_digit(d[2 * i + 1])->0;
            mac::mac_octets(before + t + after) matches Some(o) && o.len() == 6 && o[0] == octet(0)
                && o[1] == octet(1) && o[2] == octet(2) && o[3] == octet(3) && o[4] == octet(4)
                && o[5] == octet(5)
        }),
{
    let t = seq![
        d[0],
        d[1],
        ':',
        d[2],
        d[3],
        ':',
        d[4],
        d[5],
        ':',
        d[6],
        d[7],
        ':',
        d[8],
        d[9],
        ':',
        d[10],
        d[11],
    ];
    lemma_trim(before, t, after);
    lemma_pair(t, 0, d[0], d[1]);
    lemma_pair(t, 3, d[2], d[3]);
    lemma_pair(t, 6, d[4], d[5]);
    lemma_pair(t, 9, d[6], d[7]);
    lemma_pair(t, 12, d[8], d[9]);
    lemma_pair(t, 15, d[10], d[11]);
}

proof fn lemma_pair(t: Seq<char>, i: int, x: char, y: char)
    requires
        0 <= i && i + 2 <= t.len(),
        t[i] == x,
        t[i + 1] == y,
        number::hex_digit(x) is Some,
        number::hex_digit(y) is Some,
    ensures
        mac::octet_at(t, i) is Some,
        mac::octet_at(t, i)->0 == number::hex_digit(x)->0 * 16 + number::hex_digit(y)->0,
{
    let s = t.subrange(i, i + 2);
    assert(s =~= seq![x, y]);
    assert(s.drop_last() =~= seq![x]);
    assert(s.drop_last().drop_last() =~= Seq::<char>::empty());
    reveal_with_fuel(number::hex_number, 3);
    assert(number::all_hex(s));
}

/// Nothing else is an address: what is read as one is, whitespace at either end aside, seventeen
/// characters long, with a colon after each pair but the last, and hexadecimal digits elsewhere.
pub proof fn law_nothing_else_is_an_address(s: Seq<char>)
    requires
        mac::mac_octets(s) is Some,
    ensures
        ({
            let t = text::trimmed(s);
            &&& t.len() == 17
            &&& forall|i: int|
                0 <= i < 17 ==> if i % 3 == 2 {
                    #[trigger] t[i] == ':'
                } else {
                    number::hex_digit(t[i]) is Some
                }
        }),
{
    let t = text::trimmed(s);
    lemma_octet_digits(t, 0);
    lemma_octet_digits(t, 3);
    lemma_octet_digits(t, 6);
    lemma_octet_digits(t, 9);
    lemma_octet_digits(t, 12);
    lemma_octet_digits(t, 15);
}

proof fn lemma_octet_digits(t: Seq<char>, i: int)
    requires
        0 <= i && i + 2 <= t.len(),
        mac::octet_at(t, i) is Some,
    ensures
        number::hex_digit(t[i]) is Some,
        number::hex_digit(t[i + 1]) is Some,
{
    let s = t.subrange(i, i + 2);
    assert(number::hex_digit(s[0]) is Some && number::hex_digit(s[1]) is Some);
}

/// Whether `s` is made of colons and commas alone.
pub open spec fn is_marks(s: Seq<char>) -> bool {
    forall|i: int| 0 <= i < s.len() ==> #[trigger] s[i] == ':' || s[i] == ','
}

/// Whether `s` ends in a colon or a comma.
pub open spec fn ends_in_mark(s: Seq<char>) -> bool {
    s.len() > 0 && (s.last() == ':' || s.last() == ',')
}

proof fn lemma_marks(s: Seq<char>, marks: Seq<char>)
    requires
        is_marks(marks),
        !ends_in_mark(s),
    ensures
        vf::without_marks(s + marks) == s,
    decreases marks.len(),
{
    if marks.len() == 0 {
        assert(s + marks =~= s);
    } else {
        let less = marks.drop_last();
        assert forall|i: int| 0 <= i < less.len() implies #[trigger] less[i] == ':' || less[i]
            == ',' by {
            assert(less[i] == marks[i]);
        }
        lemma_marks(s, less);
        assert((s + marks).last() == marks.last());
        assert((s + marks).drop_last() =~= s + less);
    }
}

proof fn lemma_no_mark_after_decimal(n: nat)
    ensures
        !ends_in_mark(number::decimal(n)),
{
    number::law_decimal_reads_back(n);
    assert(number::is_decimal_digit(number::decimal(n).last()));
}

proof fn lemma_word_after_mac(before: Seq<Seq<char>>, word: Seq<char>, after: Seq<Seq<char>>)
    requires
        !before.contains("MAC"@),
    ensures
        vf::word_after_mac(before + seq!["MAC"@, word] + after) == Some(word),
        vf::word_after_mac(before) is None,
        vf::word_after_mac(before + seq!["MAC"@]) is None,
    decreases before.len(),
{
    let all = before + seq!["MAC"@, word] + after;
    let bare = before + seq!["MAC"@];
    if before.len() > 0 {
        assert(before.contains(before[0]));
        let rest = before.skip(1);
        assert(!rest.contains("MAC"@)) by {
            assert forall|i: int| 0 <= i < rest.len() implies rest[i] != "MAC"@ by {
                assert(before.contains(before[i + 1]));
            }
        }
        lemma_word_after_mac(rest, word, after);
        assert(all.skip(1) =~= rest + seq!["MAC"@, word] + after);
        assert(bare.skip(1) =~= rest + seq!["MAC"@]);
        assert(all[0] == before[0] && bare[0] == before[0]);
    } else {
        assert(all[0] == "MAC"@ && all[1] == word);
    }
}

proof fn lemma_first_line_of(line: Seq<char>, rest: Seq<char>)
    requires
        !line.contains('\n'),
        line.len() == 0 || line.last() != '\r',
    ensures
        ({
            let lines = text::line_texts(line + seq!['\n'] + rest);
            lines.len() > 0 && lines[0] == line && lines.skip(1) == text::line_texts(rest)
        }),
{
    text_laws::law_lines(line, rest);
    let lines = seq![line] + text::line_texts(rest);
    assert(lines.skip(1) =~= text::line_texts(rest));
}

/// The administrative address of a virtual function is the word after `MAC` in the line that has
/// `vf` and its index first, without the colons and commas after either.
pub proof fn law_address_in_a_line(
    line: Seq<char>,
    rest: Seq<char>,
    idx: nat,
    marks: Seq<char>,
    before: Seq<Seq<char>>,
    address: Seq<char>,
    more: Seq<char>,
    after: Seq<Seq<char>>,
)
    requires
        !line.contains('\n'),
        line.len() == 0 || line.last() != '\r',
        is_marks(marks),
        is_marks(more),
        !before.contains("MAC"@),
        !ends_in_mark(address),
        text::words(line) == seq!["vf"@, number::decimal(idx) + marks] + before + seq![
            "MAC"@,
            address + more,
        ] + after,
    ensures
        vf::admin_mac(line + seq!['\n'] + rest, idx) == Some(address),
{
    lemma_first_line_of(line, rest);
    lemma_no_mark_after_decimal(idx);
    lemma_marks(number::decimal(idx), marks);
    lemma_marks(address, more);
    lemma_word_after_mac(before, address + more, after);
    assert(text::words(line).skip(2) =~= before + seq!["MAC"@, address + more] + after);
}

/// A line that is not about a virtual function, or about another one, or without an address, leaves
/// the search to the lines after it. A line without words ends it, and so does `vf` without an
/// index; where no line is left, there is no address.
pub proof fn law_other_lines(line: Seq<char>, rest: Seq<char>, idx: nat)
    requires
        !line.contains('\n'),
        line.len() == 0 || line.last() != '\r',
    ensures
        ({
            let words = text::words(line);
            let found = vf::admin_mac(line + seq!['\n'] + rest, idx);
            &&& words.len() == 0 ==> found is None
            &&& words == seq!["vf"@] ==> found is None
            &&& words.len() > 0 && words[0] != "vf"@ ==> found == vf::admin_mac(rest, idx)
            &&& words.len() > 1 && words[0] == "vf"@ && !words.skip(2).contains("MAC"@) ==> found
                == vf::admin_mac(rest, idx)
        }),
        vf::admin_mac(Seq::empty(), idx) is None,
{
    lemma_first_line_of(line, rest);
    let words = text::words(line);
    if words.len() > 1 && words[0] == "vf"@ && !words.skip(2).contains("MAC"@) {
        lemma_word_after_mac(words.skip(2), "vf"@, Seq::empty());
    }
}

/// What is said of another virtual function does not count.
pub proof fn law_lines_of_others(
    line: Seq<char>,
    rest: Seq<char>,
    idx: nat,
    other: nat,
    marks: Seq<char>,
    after: Seq<Seq<char>>,
)
    requires
        !line.contains('\n'),
        line.len() == 0 || line.last() != '\r',
        is_marks(marks),
        other != idx,
        text::words(line) == seq!["vf"@, number::decimal(other) + marks] + after,
    ensures
        vf::admin_mac(line + seq!['\n'] + rest, idx) == vf::admin_mac(rest, idx),
{
    lemma_first_line_of(line, rest);
    lemma_no_mark_after_decimal(other);
    lemma_marks(number::decimal(other), marks);
    if number::decimal(other) == number::decimal(idx) {
        number::law_decimal_is_injective(other, idx);
    }
}

} // verus!
