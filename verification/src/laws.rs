//! Properties of the engine that span several functions, each stated and
//! proved over the same spec functions the public contracts use.

use vstd::prelude::*;

use crate::commands::spec_configure_interface_command;
use crate::commands::spec_status_clause;
use crate::interface::InterfaceV;
use crate::network_device::DeviceV;
use crate::network_device::StepV;
use crate::network_device::spec_add_vlan_tr;
use crate::network_device::spec_read_vlans_tr;
use crate::network_device::spec_transcript;
use crate::parser::ParseFault;
use crate::parser::VlanScan;
use crate::parser::spec_kind_name;
use crate::parser::spec_match_last;
use crate::parser::spec_parse_ports;
use crate::parser::spec_parse_vlan_table;
use crate::parser::spec_resolve_port;
use crate::parser::spec_sub1;
use crate::parser::spec_table_lines;
use crate::parser::spec_vlan_scan;
use crate::parser::spec_vlan_step;
use crate::text::lemma_find;
use crate::text::spec_find;
use crate::text::spec_match_at;
use crate::text::spec_parse_u32;
use crate::text::spec_starts_with;
use crate::text::spec_substring;
use crate::text::spec_trim;

verus! {

/// Re-scraping the same VLAN-table text twice yields the identical VLAN
/// map: a refresh replaces state wholesale and depends only on the text and
/// on the interfaces of the last interface scrape, which it leaves alone.
pub proof fn lemma_rescrape_idempotent(d: DeviceV, o: StepV)
    requires
        spec_read_vlans_tr(d, o).1 is Ok,
    ensures
        spec_read_vlans_tr(spec_read_vlans_tr(d, o).0, o).1 is Ok,
        spec_read_vlans_tr(spec_read_vlans_tr(d, o).0, o).0.vlans == spec_read_vlans_tr(d, o).0.vlans,
{
    let d1 = spec_read_vlans_tr(d, o).0;
    assert(d1.interface_list == d.interface_list);
}

/// A wrapped ports line extends the record before it: after a record line
/// for VLAN `nr` and then a continuation line, the scan holds the ports of
/// both lines, those of the record line first.
pub proof fn lemma_continuation_merging(
    st: VlanScan,
    rec: Seq<char>,
    cont: Seq<char>,
    ifs: Seq<(u32, InterfaceV)>,
    nr: u32,
    ps1: Seq<u32>,
    ps2: Seq<u32>,
)
    requires
        !spec_starts_with(rec, "VLAN"@),
        !spec_starts_with(rec, "-"@),
        spec_parse_u32(spec_trim(spec_substring(rec, 0, spec_sub1(st.name_i)))) == Some(nr),
        spec_parse_ports(spec_trim(spec_substring(rec, st.ports_i, rec.len() as int)), ifs) == Ok::<
            _,
            ParseFault,
        >(ps1),
        !spec_starts_with(cont, "VLAN"@),
        !spec_starts_with(cont, "-"@),
        spec_parse_u32(spec_trim(spec_substring(cont, 0, spec_sub1(st.name_i)))) is None,
        spec_parse_ports(spec_trim(spec_substring(cont, st.ports_i, cont.len() as int)), ifs)
            == Ok::<_, ParseFault>(ps2),
    ensures
        ({
            let st1 = spec_vlan_step(st, rec, ifs);
            &&& st1 is Ok
            &&& ({
                let st2 = spec_vlan_step(st1->Ok_0, cont, ifs);
                &&& st2 is Ok
                &&& st2->Ok_0.vlans.contains_key(nr)
                &&& st2->Ok_0.vlans[nr].ports == ps1 + ps2
            })
        }),
{
}

/// Continuation merging for a whole table: when the table's last two lines
/// are a record for VLAN `nr` and its wrapped ports line, and the lines
/// before them scan without fault to state `st`, the parsed table holds the
/// ports of both lines, those of the record line first.
pub proof fn lemma_continuation_merging_in_table(
    text: Seq<char>,
    ifs: Seq<(u32, InterfaceV)>,
    st: VlanScan,
    nr: u32,
    ps1: Seq<u32>,
    ps2: Seq<u32>,
)
    requires
        spec_table_lines(text).len() >= 2,
        spec_vlan_scan(spec_table_lines(text), spec_table_lines(text).len() - 2, ifs) == Ok::<
            VlanScan,
            ParseFault,
        >(st),
        ({
            let rec = spec_table_lines(text)[spec_table_lines(text).len() - 2];
            &&& !spec_starts_with(rec, "VLAN"@)
            &&& !spec_starts_with(rec, "-"@)
            &&& spec_parse_u32(spec_trim(spec_substring(rec, 0, spec_sub1(st.name_i)))) == Some(nr)
            &&& spec_parse_ports(spec_trim(spec_substring(rec, st.ports_i, rec.len() as int)), ifs)
                == Ok::<_, ParseFault>(ps1)
        }),
        ({
            let cont = spec_table_lines(text).last();
            &&& !spec_starts_with(cont, "VLAN"@)
            &&& !spec_starts_with(cont, "-"@)
            &&& spec_parse_u32(spec_trim(spec_substring(cont, 0, spec_sub1(st.name_i)))) is None
            &&& spec_parse_ports(
                spec_trim(spec_substring(cont, st.ports_i, cont.len() as int)),
                ifs,
            ) == Ok::<_, ParseFault>(ps2)
        }),
    ensures
        spec_parse_vlan_table(text, ifs) matches Ok(vm) && vm.contains_key(nr) && vm[nr].ports
            == ps1 + ps2,
{
    let ls = spec_table_lines(text);
    let n = ls.len() as int;
    let rec = ls[n - 2];
    let cont = ls[n - 1];
    lemma_continuation_merging(st, rec, cont, ifs, nr, ps1, ps2);
    let st1 = spec_vlan_step(st, rec, ifs)->Ok_0;
    assert(spec_vlan_scan(ls, n - 1, ifs) == Ok::<VlanScan, ParseFault>(st1));
    assert(spec_vlan_scan(ls, n, ifs) == spec_vlan_step(st1, cont, ifs));
}

/// A wrapped ports line with no record before it is a fault, never a
/// guess.
pub proof fn lemma_continuation_without_record(
    st: VlanScan,
    line: Seq<char>,
    ifs: Seq<(u32, InterfaceV)>,
)
    requires
        !st.seen,
        !spec_starts_with(line, "VLAN"@),
        !spec_starts_with(line, "-"@),
        spec_parse_u32(spec_trim(spec_substring(line, 0, spec_sub1(st.name_i)))) is None,
    ensures
        spec_vlan_step(st, line, ifs) == Err::<VlanScan, _>(
            ParseFault::ContinuationWithoutRecord,
        ),
{
}

/// A port reference that resolves to no interface of the last scrape is a
/// fault: the port is never silently dropped from the record.
pub proof fn lemma_unknown_reference_faults(
    ifs: Seq<(u32, InterfaceV)>,
    piece: Seq<char>,
    m: u32,
    n: u32,
)
    requires
        ({
            let t = spec_trim(piece);
            let rest = t.skip(2);
            &&& t.len() >= 2
            &&& spec_find(rest, "/"@) is Some
            &&& spec_parse_u32(rest.take(spec_find(rest, "/"@)->Some_0)) == Some(m)
            &&& spec_parse_u32(rest.skip(spec_find(rest, "/"@)->Some_0 + 1)) == Some(n)
            &&& spec_match_last(ifs, spec_kind_name(t.take(2)), m, n) is None
        }),
    ensures
        spec_resolve_port(ifs, piece) == Err::<u32, _>(ParseFault::UnknownPort),
{
}

/// A record line whose ports cell does not resolve is a fault of the whole
/// scan step, with the cell's own fault.
pub proof fn lemma_bad_ports_cell_faults(
    st: VlanScan,
    line: Seq<char>,
    ifs: Seq<(u32, InterfaceV)>,
    nr: u32,
    f: ParseFault,
)
    requires
        !spec_starts_with(line, "VLAN"@),
        !spec_starts_with(line, "-"@),
        spec_parse_u32(spec_trim(spec_substring(line, 0, spec_sub1(st.name_i)))) == Some(nr),
        spec_parse_ports(spec_trim(spec_substring(line, st.ports_i, line.len() as int)), ifs)
            == Err::<Seq<u32>, _>(f),
    ensures
        spec_vlan_step(st, line, ifs) == Err::<VlanScan, _>(f),
{
}

/// Round trip of a mutation: when every step of an add-VLAN transcript
/// succeeded and the trailing re-scrape lists VLAN `number` under `name`,
/// the device afterwards holds exactly that entry.
pub proof fn lemma_add_vlan_round_trip(d: DeviceV, t: Seq<StepV>, number: u32, name: Seq<char>)
    requires
        spec_transcript(t, 3),
        t.len() == 3,
        t[0] is Output,
        t[1] is Output,
        t[2] is Output,
        spec_parse_vlan_table(t[2]->Output_text, d.interface_list) matches Ok(vm)
            && vm.contains_key(number) && vm[number].name == name,
    ensures
        ({
            let (d2, res) = spec_add_vlan_tr(d, t);
            &&& res is Ok
            &&& d2.vlans.contains_key(number)
            &&& d2.vlans[number].name == name
        }),
{
}

/// The configuration command embeds the administrative clause its status
/// token asks for: the literal `no shutdown` for `"up"`, the literal
/// `shutdown` for `"down"`, and nothing for any other token.
pub proof fn lemma_status_clause_embedded(
    iface: InterfaceV,
    ip: Seq<char>,
    mask: Seq<char>,
    status: Seq<char>,
)
    ensures
        ({
            let c = spec_configure_interface_command(iface, ip, mask, status);
            &&& status == "up"@ ==> crate::text::spec_contains(c, "no shutdown"@)
            &&& status == "down"@ ==> crate::text::spec_contains(c, "shutdown"@)
            &&& (status != "up"@ && status != "down"@) ==> spec_status_clause(status)
                == Seq::<char>::empty()
        }),
{
    reveal_strlit("up");
    reveal_strlit("down");
    reveal_strlit("no shutdown");
    reveal_strlit("shutdown");
    assert(("up"@).len() == 2);
    assert(("down"@).len() == 4);
    let c = spec_configure_interface_command(iface, ip, mask, status);
    let clause = spec_status_clause(status);
    if status == "up"@ || status == "down"@ {
        let k = c.len() - clause.len();
        assert(c.subrange(k as int, c.len() as int) =~= clause);
        assert(spec_match_at(c, clause, k as int));
        lemma_find(c, clause);
        match spec_find(c, clause) {
            Some(i) => {},
            None => {
                assert(!spec_match_at(c, clause, k as int));
            },
        }
    }
}

} // verus!
