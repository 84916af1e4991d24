//! Parsers for the column-aligned tables the console prints.
//!
//! Both tables follow one scheme: a header line names the columns and its
//! character offsets drive the slicing of every following line.  The spec
//! functions here define the parse line by line; the exec parsers are proved
//! to return exactly what the spec functions say, and every malformed input
//! is answered with a typed fault instead of an abort.

use std::collections::HashMap;

use vstd::prelude::*;
use vstd::string::StrSliceExecFns;
use vstd::string::StringExecFns;

use crate::interface::Interface;
use crate::interface::InterfaceV;
use crate::text::find_digit_str;
use crate::text::lemma_find_digit;
use crate::text::find_str;
use crate::text::lemma_find;
use crate::text::parse_u32_str;
use crate::text::spec_find;
use crate::text::spec_find_digit;
use crate::text::spec_lines;
use crate::text::spec_parse_u32;
use crate::text::spec_split_commas;
use crate::text::spec_starts_with;
use crate::text::spec_substring;
use crate::text::spec_trim;
use crate::text::split_commas;
use crate::text::split_lines;
use crate::text::starts_with_str;
use crate::text::str_eq;
use crate::text::substring_clamped;
use crate::text::trim_str;
use crate::vlan::Vlan;
use crate::vlan::VlanV;

verus! {

/// The ways a table scrape can be malformed.  Each fault leaves the prior
/// device state untouched.
#[derive(Debug, Clone, Copy, PartialEq, Eq, Structural)]
pub enum ParseFault {
    /// A wrapped ports line arrived before any VLAN record.
    ContinuationWithoutRecord,
    /// A port reference is too short or has no `/` between module and port.
    PortFormat,
    /// The module half of a port reference is not a number.
    PortModule,
    /// The port half of a port reference is not a number.
    PortNumber,
    /// A port reference names an interface the last interface scrape did
    /// not list.
    UnknownPort,
    /// An interface line has no digit to split family from addressing.
    InterfaceNoDigit,
    /// The module field of an interface line is not a number.
    InterfaceModule,
    /// The table has more lines than interface ids can number.
    LineOverflow,
}

/// End of the column that starts at offset `i`: one character before the
/// next column, clamped at the line start.
pub open spec fn spec_sub1(i: int) -> int {
    if i >= 1 {
        i - 1
    } else {
        0
    }
}

/// The vendor family a two-letter port abbreviation stands for; unknown
/// abbreviations give the empty name.
pub open spec fn spec_kind_name(k: Seq<char>) -> Seq<char> {
    if k == "Fa"@ {
        "FastEthernet"@
    } else if k == "Ga"@ {
        "GigabitEthernet"@
    } else {
        Seq::empty()
    }
}

/// Id of the last interface in encounter order whose family, module and
/// number match.
pub open spec fn spec_match_last(
    ifs: Seq<(u32, InterfaceV)>,
    ty: Seq<char>,
    module: u32,
    number: u32,
) -> Option<u32>
    decreases ifs.len(),
{
    if ifs.len() == 0 {
        None
    } else if ifs.last().1.int_type == ty && ifs.last().1.module == module && ifs.last().1.number
        == number {
        Some(ifs.last().0)
    } else {
        spec_match_last(ifs.drop_last(), ty, module, number)
    }
}

/// Resolution of one abbreviated port reference (for instance `Fa0/1`)
/// against the interfaces of the last scrape.
pub open spec fn spec_resolve_port(ifs: Seq<(u32, InterfaceV)>, piece: Seq<char>) -> Result<
    u32,
    ParseFault,
> {
    let t = spec_trim(piece);
    if t.len() < 2 {
        Err(ParseFault::PortFormat)
    } else {
        let kind = t.take(2);
        let rest = t.skip(2);
        match spec_find(rest, "/"@) {
            None => Err(ParseFault::PortFormat),
            Some(sl) => {
                let mod_s = rest.take(sl);
                let num_s = rest.skip(sl + 1);
                match spec_parse_u32(mod_s) {
                    None => Err(ParseFault::PortModule),
                    Some(m) => match spec_parse_u32(num_s) {
                        None => Err(ParseFault::PortNumber),
                        Some(n) => match spec_match_last(ifs, spec_kind_name(kind), m, n) {
                            Some(id) => Ok(id),
                            None => Err(ParseFault::UnknownPort),
                        },
                    },
                }
            },
        }
    }
}

/// Resolution of a comma-separated list of port references, first fault
/// first.
pub open spec fn spec_resolve_ports_list(
    pieces: Seq<Seq<char>>,
    ifs: Seq<(u32, InterfaceV)>,
) -> Result<Seq<u32>, ParseFault>
    decreases pieces.len(),
{
    if pieces.len() == 0 {
        Ok(Seq::empty())
    } else {
        match spec_resolve_port(ifs, pieces[0]) {
            Err(f) => Err(f),
            Ok(id) => match spec_resolve_ports_list(pieces.skip(1), ifs) {
                Err(f) => Err(f),
                Ok(rest) => Ok(seq![id] + rest),
            },
        }
    }
}

/// The ids a trimmed ports cell resolves to; an empty cell has none.
pub open spec fn spec_parse_ports(cell: Seq<char>, ifs: Seq<(u32, InterfaceV)>) -> Result<
    Seq<u32>,
    ParseFault,
> {
    if cell.len() == 0 {
        Ok(Seq::empty())
    } else {
        spec_resolve_ports_list(spec_split_commas(cell), ifs)
    }
}

fn kind_name(kind: &str) -> (r: String)
    ensures
        r@ == spec_kind_name(kind@),
{
    if str_eq(kind, "Fa") {
        "FastEthernet".to_owned()
    } else if str_eq(kind, "Ga") {
        "GigabitEthernet".to_owned()
    } else {
        let r = "".to_owned();
        proof {
            reveal_strlit("");
            assert(r@ =~= Seq::<char>::empty());
        }
        r
    }
}

fn match_last(interfaces: &Vec<(u32, Interface)>, ty: &str, module: u32, number: u32) -> (r: Option<
    u32,
>)
    ensures
        r == spec_match_last(interfaces.deep_view(), ty@, module, number),
{
    let ghost ifs = interfaces.deep_view();
    let mut i: usize = interfaces.len();
    proof {
        assert(ifs.len() == interfaces.len());
        assert(ifs.take(ifs.len() as int) =~= ifs);
    }
    while i > 0
        invariant
            0 <= i <= interfaces.len(),
            ifs == interfaces.deep_view(),
            ifs.len() == interfaces.len(),
            spec_match_last(ifs, ty@, module, number) == spec_match_last(
                ifs.take(i as int),
                ty@,
                module,
                number,
            ),
        decreases i,
    {
        let entry = &interfaces[i - 1];
        proof {
            assert(ifs[i - 1] == (entry.0, entry.1.deep_view()));
            assert(ifs.take(i as int).last() == ifs[i - 1]);
            assert(ifs.take(i as int).drop_last() =~= ifs.take(i - 1));
        }
        if str_eq(entry.1.int_type.as_str(), ty) && entry.1.module == module && entry.1.number
            == number {
            return Some(entry.0);
        }
        i = i - 1;
    }
    proof {
        assert(ifs.take(0) =~= Seq::<(u32, InterfaceV)>::empty());
    }
    None
}

/// Resolves one abbreviated port reference against the interface list.
pub fn resolve_port(interfaces: &Vec<(u32, Interface)>, piece: &str) -> (r: Result<u32, ParseFault>)
    ensures
        r == spec_resolve_port(interfaces.deep_view(), piece@),
{
    let t: String = trim_str(piece);
    let t_len: usize = t.as_str().unicode_len();
    if t_len < 2 {
        return Err(ParseFault::PortFormat);
    }
    let kind: String = substring_clamped(t.as_str(), 0, 2);
    let rest: String = substring_clamped(t.as_str(), 2, t_len);
    proof {
        assert(kind@ =~= spec_trim(piece@).take(2));
        assert(rest@ =~= spec_trim(piece@).skip(2));
    }
    let rest_len: usize = rest.as_str().unicode_len();
    match find_str(rest.as_str(), "/") {
        None => Err(ParseFault::PortFormat),
        Some(sl) => {
            proof {
                lemma_find(rest@, "/"@);
                reveal_strlit("/");
            }
            let mod_s: String = substring_clamped(rest.as_str(), 0, sl);
            let num_s: String = substring_clamped(rest.as_str(), sl + 1, rest_len);
            proof {
                assert(mod_s@ =~= rest@.take(sl as int));
                assert(num_s@ =~= rest@.skip(sl as int + 1));
            }
            match parse_u32_str(mod_s.as_str()) {
                None => Err(ParseFault::PortModule),
                Some(m) => match parse_u32_str(num_s.as_str()) {
                    None => Err(ParseFault::PortNumber),
                    Some(n) => {
                        let ty: String = kind_name(kind.as_str());
                        match match_last(interfaces, ty.as_str(), m, n) {
                            Some(id) => Ok(id),
                            None => Err(ParseFault::UnknownPort),
                        }
                    },
                },
            }
        },
    }
}

/// Resolves a trimmed ports cell to the listed interface ids, in encounter
/// order.
pub fn parse_ports(interfaces: &Vec<(u32, Interface)>, cell: &str) -> (r: Result<
    Vec<u32>,
    ParseFault,
>)
    ensures
        match r {
            Ok(v) => spec_parse_ports(cell@, interfaces.deep_view()) == Ok::<_, ParseFault>(v@),
            Err(f) => spec_parse_ports(cell@, interfaces.deep_view()) == Err::<Seq<u32>, _>(f),
        },
{
    if cell.unicode_len() == 0 {
        let v: Vec<u32> = Vec::new();
        proof {
            assert(v@ =~= Seq::<u32>::empty());
        }
        return Ok(v);
    }
    let pieces: Vec<String> = split_commas(cell);
    let ghost ps = spec_split_commas(cell@);
    let ghost ifs = interfaces.deep_view();
    let mut acc: Vec<u32> = Vec::new();
    let mut i: usize = 0;
    proof {
        assert(ps.skip(0) =~= ps);
        assert(pieces.deep_view().len() == pieces.len());
    }
    let n: usize = pieces.len();
    while i < n
        invariant
            0 <= i <= n,
            n == pieces.len(),
            cell@.len() > 0,
            ps == pieces.deep_view(),
            ps == spec_split_commas(cell@),
            ifs == interfaces.deep_view(),
            spec_resolve_ports_list(ps, ifs) == match spec_resolve_ports_list(
                ps.skip(i as int),
                ifs,
            ) {
                Ok(rest) => Ok::<_, ParseFault>(acc@ + rest),
                Err(f) => Err::<Seq<u32>, _>(f),
            },
        decreases n - i,
    {
        proof {
            assert(ps.skip(i as int)[0] == ps[i as int]);
            assert(ps[i as int] == pieces[i as int]@);
            assert(ps.skip(i as int).skip(1) =~= ps.skip(i as int + 1));
        }
        match resolve_port(interfaces, pieces[i].as_str()) {
            Err(f) => {
                return Err(f);
            },
            Ok(id) => {
                let ghost prev = acc@;
                acc.push(id);
                proof {
                    assert forall|rest: Seq<u32>| acc@ + rest =~= prev + (seq![id] + rest) by {}
                    if let Ok(rest) = spec_resolve_ports_list(ps.skip(i as int + 1), ifs) {
                        assert(acc@ + rest =~= prev + (seq![id] + rest));
                    }
                }
            },
        }
        i = i + 1;
    }
    proof {
        assert(ps.skip(n as int) =~= Seq::<Seq<char>>::empty());
        assert(acc@ + Seq::<u32>::empty() =~= acc@);
    }
    Ok(acc)
}

/// Scan state of the VLAN table: the column offsets the last header set,
/// the records so far, and the number of the record a wrapped ports line
/// would extend.
pub ghost struct VlanScan {
    pub name_i: int,
    pub status_i: int,
    pub ports_i: int,
    pub vlans: Map<u32, VlanV>,
    pub last: u32,
    pub seen: bool,
}

pub open spec fn spec_vlan_initial() -> VlanScan {
    VlanScan {
        name_i: 0,
        status_i: 0,
        ports_i: 0,
        vlans: Map::empty(),
        last: 0,
        seen: false,
    }
}

/// One line of the VLAN table applied to the scan state.  A header line
/// resets the column offsets (with fixed fallbacks where a column name is
/// missing), a dash separator is skipped, a line whose key field is a number
/// starts a record, and any other line wraps ports onto the last record.
pub open spec fn spec_vlan_step(
    st: VlanScan,
    line: Seq<char>,
    ifs: Seq<(u32, InterfaceV)>,
) -> Result<VlanScan, ParseFault> {
    if spec_starts_with(line, "VLAN"@) {
        Ok(
            VlanScan {
                name_i: match spec_find(line, "Name"@) {
                    Some(k) => k,
                    None => 5,
                },
                status_i: match spec_find(line, "Status"@) {
                    Some(k) => k,
                    None => 38,
                },
                ports_i: match spec_find(line, "Ports"@) {
                    Some(k) => k,
                    None => 48,
                },
                vlans: st.vlans,
                last: st.last,
                seen: st.seen,
            },
        )
    } else if spec_starts_with(line, "-"@) {
        Ok(st)
    } else {
        let key = spec_trim(spec_substring(line, 0, spec_sub1(st.name_i)));
        match spec_parse_u32(key) {
            Some(nr) => {
                let name = spec_trim(spec_substring(line, st.name_i, spec_sub1(st.status_i)));
                let status = spec_trim(spec_substring(line, st.status_i, spec_sub1(st.ports_i)));
                let cell = spec_trim(spec_substring(line, st.ports_i, line.len() as int));
                match spec_parse_ports(cell, ifs) {
                    Err(f) => Err(f),
                    Ok(ps) => Ok(
                        VlanScan {
                            name_i: st.name_i,
                            status_i: st.status_i,
                            ports_i: st.ports_i,
                            vlans: st.vlans.insert(nr, VlanV { name, status, ports: ps }),
                            last: nr,
                            seen: true,
                        },
                    ),
                }
            },
            None => {
                if !st.seen {
                    Err(ParseFault::ContinuationWithoutRecord)
                } else {
                    let cell = spec_trim(spec_substring(line, st.ports_i, line.len() as int));
                    match spec_parse_ports(cell, ifs) {
                        Err(f) => Err(f),
                        Ok(ps) => {
                            let v = st.vlans[st.last];
                            Ok(
                                VlanScan {
                                    name_i: st.name_i,
                                    status_i: st.status_i,
                                    ports_i: st.ports_i,
                                    vlans: st.vlans.insert(
                                        st.last,
                                        VlanV {
                                            name: v.name,
                                            status: v.status,
                                            ports: v.ports + ps,
                                        },
                                    ),
                                    last: st.last,
                                    seen: st.seen,
                                },
                            )
                        },
                    }
                }
            },
        }
    }
}

/// Scan state after the first `n` lines, first fault first.
pub open spec fn spec_vlan_scan(
    lines: Seq<Seq<char>>,
    n: int,
    ifs: Seq<(u32, InterfaceV)>,
) -> Result<VlanScan, ParseFault>
    decreases n,
{
    if n <= 0 {
        Ok(spec_vlan_initial())
    } else {
        match spec_vlan_scan(lines, n - 1, ifs) {
            Err(f) => Err(f),
            Ok(st) => spec_vlan_step(st, lines[n - 1], ifs),
        }
    }
}

/// The lines a table scrape walks: everything after the echoed command
/// line.
pub open spec fn spec_table_lines(text: Seq<char>) -> Seq<Seq<char>> {
    let ls = spec_lines(text);
    if ls.len() >= 1 {
        ls.skip(1)
    } else {
        ls
    }
}

/// The VLAN records of a `sh vlan brief` response, keyed by VLAN number,
/// with each ports cell resolved against `ifs`.
pub open spec fn spec_parse_vlan_table(text: Seq<char>, ifs: Seq<(u32, InterfaceV)>) -> Result<
    Map<u32, VlanV>,
    ParseFault,
> {
    let ls = spec_table_lines(text);
    match spec_vlan_scan(ls, ls.len() as int, ifs) {
        Ok(st) => Ok(st.vlans),
        Err(f) => Err(f),
    }
}

/// The model of an executable VLAN map.
pub open spec fn vlan_map_view(m: Map<u32, Vlan>) -> Map<u32, VlanV> {
    m.map_values(|v: Vlan| v@)
}

/// A fault reached at line `k` settles the whole scan.
proof fn lemma_vlan_scan_fault(
    lines: Seq<Seq<char>>,
    k: int,
    m: int,
    ifs: Seq<(u32, InterfaceV)>,
    f: ParseFault,
)
    requires
        spec_vlan_scan(lines, k, ifs) == Err::<VlanScan, _>(f),
        k <= m,
    ensures
        spec_vlan_scan(lines, m, ifs) == Err::<VlanScan, _>(f),
    decreases m - k,
{
    if k < m {
        lemma_vlan_scan_fault(lines, k, m - 1, ifs, f);
    }
}

/// Exec form of `spec_parse_vlan_table`.  On a fault the map under
/// construction is discarded; the caller's state is never touched.
pub fn parse_vlan_table(response: &str, interfaces: &Vec<(u32, Interface)>) -> (r: Result<
    HashMap<u32, Vlan>,
    ParseFault,
>)
    ensures
        match r {
            Ok(m) => spec_parse_vlan_table(response@, interfaces.deep_view()) == Ok::<
                _,
                ParseFault,
            >(vlan_map_view(m@)),
            Err(f) => spec_parse_vlan_table(response@, interfaces.deep_view()) == Err::<
                Map<u32, VlanV>,
                _,
            >(f),
        },
{
    broadcast use vstd::std_specs::hash::group_hash_axioms;

    let lines: Vec<String> = split_lines(response);
    let ghost ls = spec_table_lines(response@);
    let ghost ifs = interfaces.deep_view();
    let mut vlans: HashMap<u32, Vlan> = HashMap::new();
    let mut name_i: usize = 0;
    let mut status_i: usize = 0;
    let mut ports_i: usize = 0;
    let mut last: u32 = 0;
    let mut seen: bool = false;
    let n: usize = lines.len();
    proof {
        assert(vlan_map_view(vlans@) =~= spec_vlan_initial().vlans);
        if n >= 1 {
            assert(ls == lines.deep_view().skip(1));
        }
    }
    if n == 0 {
        proof {
            assert(ls.len() == 0);
        }
        return Ok(vlans);
    }
    let mut i: usize = 1;
    while i < n
        invariant
            1 <= i <= n,
            n == lines.len(),
            ls == spec_table_lines(response@),
            ls == lines.deep_view().skip(1),
            ls.len() == n - 1,
            ifs == interfaces.deep_view(),
            seen ==> vlans@.contains_key(last),
            spec_vlan_scan(ls, i - 1, ifs) == Ok::<_, ParseFault>(
                VlanScan {
                    name_i: name_i as int,
                    status_i: status_i as int,
                    ports_i: ports_i as int,
                    vlans: vlan_map_view(vlans@),
                    last,
                    seen,
                },
            ),
        decreases n - i,
    {
        let ghost st = VlanScan {
            name_i: name_i as int,
            status_i: status_i as int,
            ports_i: ports_i as int,
            vlans: vlan_map_view(vlans@),
            last,
            seen,
        };
        let line: &String = &lines[i];
        proof {
            assert(ls[i - 1] == lines.deep_view()[i as int]);
            assert(lines.deep_view()[i as int] == line@);
        }
        if starts_with_str(line.as_str(), "VLAN") {
            name_i = match find_str(line.as_str(), "Name") {
                Some(k) => k,
                None => 5,
            };
            status_i = match find_str(line.as_str(), "Status") {
                Some(k) => k,
                None => 38,
            };
            ports_i = match find_str(line.as_str(), "Ports") {
                Some(k) => k,
                None => 48,
            };
        } else if starts_with_str(line.as_str(), "-") {
        } else {
            let len: usize = line.as_str().unicode_len();
            let key_end: usize = if name_i >= 1 {
                name_i - 1
            } else {
                0
            };
            let key: String = trim_str(substring_clamped(line.as_str(), 0, key_end).as_str());
            match parse_u32_str(key.as_str()) {
                Some(nr) => {
                    let name_end: usize = if status_i >= 1 {
                        status_i - 1
                    } else {
                        0
                    };
                    let status_end: usize = if ports_i >= 1 {
                        ports_i - 1
                    } else {
                        0
                    };
                    let name: String = trim_str(
                        substring_clamped(line.as_str(), name_i, name_end).as_str(),
                    );
                    let status: String = trim_str(
                        substring_clamped(line.as_str(), status_i, status_end).as_str(),
                    );
                    let cell: String = trim_str(
                        substring_clamped(line.as_str(), ports_i, len).as_str(),
                    );
                    match parse_ports(interfaces, cell.as_str()) {
                        Err(f) => {
                            proof {
                                lemma_vlan_scan_fault(ls, i as int, ls.len() as int, ifs, f);
                            }
                            return Err(f);
                        },
                        Ok(ports) => {
                            let ghost prev = vlans@;
                            let v = Vlan { name, status, ports };
                            vlans.insert(nr, v);
                            proof {
                                assert(vlan_map_view(vlans@) =~= vlan_map_view(prev).insert(
                                    nr,
                                    v@,
                                ));
                            }
                            last = nr;
                            seen = true;
                        },
                    }
                },
                None => {
                    if !seen {
                        proof {
                            lemma_vlan_scan_fault(
                                ls,
                                i as int,
                                ls.len() as int,
                                ifs,
                                ParseFault::ContinuationWithoutRecord,
                            );
                        }
                        return Err(ParseFault::ContinuationWithoutRecord);
                    }
                    let cell: String = trim_str(
                        substring_clamped(line.as_str(), ports_i, len).as_str(),
                    );
                    match parse_ports(interfaces, cell.as_str()) {
                        Err(f) => {
                            proof {
                                lemma_vlan_scan_fault(ls, i as int, ls.len() as int, ifs, f);
                            }
                            return Err(f);
                        },
                        Ok(mut ports) => {
                            let ghost prev = vlans@;
                            match vlans.remove(&last) {
                                Some(mut v) => {
                                    let ghost held = v@;
                                    let ghost added = ports@;
                                    v.ports.append(&mut ports);
                                    proof {
                                        assert(v@.ports =~= held.ports + added);
                                    }
                                    vlans.insert(last, v);
                                    proof {
                                        assert(vlan_map_view(vlans@) =~= vlan_map_view(
                                            prev,
                                        ).insert(last, v@));
                                        assert(vlan_map_view(prev)[last] == held);
                                    }
                                },
                                None => {
                                    proof {
                                        assert(false);
                                    }
                                    return Err(ParseFault::ContinuationWithoutRecord);
                                },
                            }
                        },
                    }
                },
            }
        }
        i = i + 1;
    }
    proof {
        assert(spec_vlan_scan(ls, ls.len() as int, ifs) == Ok::<_, ParseFault>(
            VlanScan {
                name_i: name_i as int,
                status_i: status_i as int,
                ports_i: ports_i as int,
                vlans: vlan_map_view(vlans@),
                last,
                seen,
            },
        ));
    }
    Ok(vlans)
}

/// Scan state of the interface table: the column offsets the last header
/// set and the records so far, keyed by their line index and kept in
/// encounter order.
pub ghost struct IfScan {
    pub if_i: int,
    pub ip_i: int,
    pub ok_i: int,
    pub method_i: int,
    pub status_i: int,
    pub proto_i: int,
    pub list: Seq<(u32, InterfaceV)>,
}

pub open spec fn spec_if_initial() -> IfScan {
    IfScan { if_i: 0, ip_i: 0, ok_i: 0, method_i: 0, status_i: 0, proto_i: 0, list: Seq::empty() }
}

/// One line of the interface table applied to the scan state.  The name
/// cell is split at its first digit into the vendor family and the
/// `module/number` addressing; a missing `/` leaves the whole tail as the
/// module and the number 0.
pub open spec fn spec_if_step(st: IfScan, nr: int, line: Seq<char>) -> Result<IfScan, ParseFault> {
    if spec_starts_with(line, "Interface"@) {
        Ok(
            IfScan {
                if_i: match spec_find(line, "Interface"@) {
                    Some(k) => k,
                    None => 5,
                },
                ip_i: match spec_find(line, "IP-Address"@) {
                    Some(k) => k,
                    None => 38,
                },
                ok_i: match spec_find(line, "OK?"@) {
                    Some(k) => k,
                    None => 48,
                },
                method_i: match spec_find(line, "Method"@) {
                    Some(k) => k,
                    None => 48,
                },
                status_i: match spec_find(line, "Status"@) {
                    Some(k) => k,
                    None => 48,
                },
                proto_i: match spec_find(line, "Protocol"@) {
                    Some(k) => k,
                    None => 48,
                },
                list: st.list,
            },
        )
    } else {
        let port_cell = spec_trim(spec_substring(line, st.if_i, spec_sub1(st.ip_i)));
        let ip = spec_trim(spec_substring(line, st.ip_i, spec_sub1(st.ok_i)));
        let status = spec_trim(spec_substring(line, st.status_i, spec_sub1(st.proto_i)));
        match spec_find_digit(port_cell) {
            None => Err(ParseFault::InterfaceNoDigit),
            Some(d) => {
                let fam = port_cell.take(d);
                let addr = port_cell.skip(d);
                let mod_s = match spec_find(addr, "/"@) {
                    Some(sl) => addr.take(sl),
                    None => addr,
                };
                let num_s = match spec_find(addr, "/"@) {
                    Some(sl) => addr.skip(sl + 1),
                    None => Seq::empty(),
                };
                match spec_parse_u32(mod_s) {
                    None => Err(ParseFault::InterfaceModule),
                    Some(m) => {
                        if nr > u32::MAX {
                            Err(ParseFault::LineOverflow)
                        } else {
                            let num = match spec_parse_u32(num_s) {
                                Some(x) => x,
                                None => 0,
                            };
                            Ok(
                                IfScan {
                                    if_i: st.if_i,
                                    ip_i: st.ip_i,
                                    ok_i: st.ok_i,
                                    method_i: st.method_i,
                                    status_i: st.status_i,
                                    proto_i: st.proto_i,
                                    list: st.list.push(
                                        (
                                            nr as u32,
                                            InterfaceV {
                                                int_type: fam,
                                                module: m,
                                                number: num,
                                                ip_address: ip,
                                                status,
                                            },
                                        ),
                                    ),
                                },
                            )
                        }
                    },
                }
            },
        }
    }
}

/// Scan state after the first `n` lines, first fault first.
pub open spec fn spec_if_scan(lines: Seq<Seq<char>>, n: int) -> Result<IfScan, ParseFault>
    decreases n,
{
    if n <= 0 {
        Ok(spec_if_initial())
    } else {
        match spec_if_scan(lines, n - 1) {
            Err(f) => Err(f),
            Ok(st) => spec_if_step(st, n - 1, lines[n - 1]),
        }
    }
}

/// The interface records of a `sh ip int brief` response, in encounter
/// order, keyed by line index.
pub open spec fn spec_parse_interface_table(text: Seq<char>) -> Result<
    Seq<(u32, InterfaceV)>,
    ParseFault,
> {
    let ls = spec_table_lines(text);
    match spec_if_scan(ls, ls.len() as int) {
        Ok(st) => Ok(st.list),
        Err(f) => Err(f),
    }
}

/// The model of an executable interface map.
pub open spec fn if_map_view(m: Map<u32, Interface>) -> Map<u32, InterfaceV> {
    m.map_values(|x: Interface| x@)
}

/// The map an interface list denotes, later entries overriding earlier
/// ones.
pub open spec fn if_list_map(l: Seq<(u32, InterfaceV)>) -> Map<u32, InterfaceV>
    decreases l.len(),
{
    if l.len() == 0 {
        Map::empty()
    } else {
        if_list_map(l.drop_last()).insert(l.last().0, l.last().1)
    }
}

/// A fault reached at line `k` settles the whole scan.
proof fn lemma_if_scan_fault(lines: Seq<Seq<char>>, k: int, m: int, f: ParseFault)
    requires
        spec_if_scan(lines, k) == Err::<IfScan, _>(f),
        k <= m,
    ensures
        spec_if_scan(lines, m) == Err::<IfScan, _>(f),
    decreases m - k,
{
    if k < m {
        lemma_if_scan_fault(lines, k, m - 1, f);
    }
}

/// Exec form of `spec_parse_interface_table`: the records as a map keyed by
/// line index, and the same records in encounter order for port resolution.
pub fn parse_interface_table(response: &str) -> (r: Result<
    (HashMap<u32, Interface>, Vec<(u32, Interface)>),
    ParseFault,
>)
    ensures
        match r {
            Ok(p) => {
                &&& spec_parse_interface_table(response@) == Ok::<_, ParseFault>(p.1.deep_view())
                &&& if_map_view(p.0@) == if_list_map(p.1.deep_view())
            },
            Err(f) => spec_parse_interface_table(response@) == Err::<Seq<(u32, InterfaceV)>, _>(f),
        },
{
    broadcast use vstd::std_specs::hash::group_hash_axioms;

    let lines: Vec<String> = split_lines(response);
    let ghost ls = spec_table_lines(response@);
    let mut map: HashMap<u32, Interface> = HashMap::new();
    let mut list: Vec<(u32, Interface)> = Vec::new();
    let mut if_i: usize = 0;
    let mut ip_i: usize = 0;
    let mut ok_i: usize = 0;
    let mut method_i: usize = 0;
    let mut status_i: usize = 0;
    let mut proto_i: usize = 0;
    let n: usize = lines.len();
    proof {
        assert(if_map_view(map@) =~= if_list_map(list.deep_view()));
        assert(list.deep_view() =~= spec_if_initial().list);
        if n >= 1 {
            assert(ls == lines.deep_view().skip(1));
        }
    }
    if n == 0 {
        proof {
            assert(ls.len() == 0);
        }
        return Ok((map, list));
    }
    let mut i: usize = 1;
    while i < n
        invariant
            1 <= i <= n,
            n == lines.len(),
            ls == spec_table_lines(response@),
            ls == lines.deep_view().skip(1),
            ls.len() == n - 1,
            if_map_view(map@) == if_list_map(list.deep_view()),
            spec_if_scan(ls, i - 1) == Ok::<_, ParseFault>(
                IfScan {
                    if_i: if_i as int,
                    ip_i: ip_i as int,
                    ok_i: ok_i as int,
                    method_i: method_i as int,
                    status_i: status_i as int,
                    proto_i: proto_i as int,
                    list: list.deep_view(),
                },
            ),
        decreases n - i,
    {
        let line: &String = &lines[i];
        proof {
            assert(ls[i - 1] == lines.deep_view()[i as int]);
            assert(lines.deep_view()[i as int] == line@);
        }
        if starts_with_str(line.as_str(), "Interface") {
            if_i = match find_str(line.as_str(), "Interface") {
                Some(k) => k,
                None => 5,
            };
            ip_i = match find_str(line.as_str(), "IP-Address") {
                Some(k) => k,
                None => 38,
            };
            ok_i = match find_str(line.as_str(), "OK?") {
                Some(k) => k,
                None => 48,
            };
            method_i = match find_str(line.as_str(), "Method") {
                Some(k) => k,
                None => 48,
            };
            status_i = match find_str(line.as_str(), "Status") {
                Some(k) => k,
                None => 48,
            };
            proto_i = match find_str(line.as_str(), "Protocol") {
                Some(k) => k,
                None => 48,
            };
        } else {
            let len: usize = line.as_str().unicode_len();
            let port_end: usize = if ip_i >= 1 {
                ip_i - 1
            } else {
                0
            };
            let ip_end: usize = if ok_i >= 1 {
                ok_i - 1
            } else {
                0
            };
            let status_end: usize = if proto_i >= 1 {
                proto_i - 1
            } else {
                0
            };
            let port_cell: String = trim_str(
                substring_clamped(line.as_str(), if_i, port_end).as_str(),
            );
            let ip: String = trim_str(substring_clamped(line.as_str(), ip_i, ip_end).as_str());
            let status: String = trim_str(
                substring_clamped(line.as_str(), status_i, status_end).as_str(),
            );
            match find_digit_str(port_cell.as_str()) {
                None => {
                    proof {
                        lemma_if_scan_fault(
                            ls,
                            i as int,
                            ls.len() as int,
                            ParseFault::InterfaceNoDigit,
                        );
                    }
                    return Err(ParseFault::InterfaceNoDigit);
                },
                Some(d) => {
                    let cell_len: usize = port_cell.as_str().unicode_len();
                    let fam: String = substring_clamped(port_cell.as_str(), 0, d);
                    let addr: String = substring_clamped(port_cell.as_str(), d, cell_len);
                    proof {
                        lemma_find_digit(port_cell@);
                        assert(fam@ =~= port_cell@.take(d as int));
                        assert(addr@ =~= port_cell@.skip(d as int));
                    }
                    let addr_len: usize = addr.as_str().unicode_len();
                    let slash: Option<usize> = find_str(addr.as_str(), "/");
                    let mod_s: String = match slash {
                        Some(sl) => substring_clamped(addr.as_str(), 0, sl),
                        None => addr.as_str().to_owned(),
                    };
                    let num_s: String = match slash {
                        Some(sl) => {
                            proof {
                                lemma_find(addr@, "/"@);
                                reveal_strlit("/");
                            }
                            substring_clamped(addr.as_str(), sl + 1, addr_len)
                        },
                        None => {
                            let e = "".to_owned();
                            proof {
                                reveal_strlit("");
                                assert(e@ =~= Seq::<char>::empty());
                            }
                            e
                        },
                    };
                    proof {
                        if let Some(sl) = slash {
                            lemma_find(addr@, "/"@);
                            reveal_strlit("/");
                            assert(mod_s@ =~= addr@.take(sl as int));
                            assert(num_s@ =~= addr@.skip(sl as int + 1));
                        } else {
                            assert(mod_s@ =~= addr@);
                        }
                    }
                    match parse_u32_str(mod_s.as_str()) {
                        None => {
                            proof {
                                lemma_if_scan_fault(
                                    ls,
                                    i as int,
                                    ls.len() as int,
                                    ParseFault::InterfaceModule,
                                );
                            }
                            return Err(ParseFault::InterfaceModule);
                        },
                        Some(m) => {
                            let nr_idx: usize = i - 1;
                            if nr_idx > (u32::MAX as usize) {
                                proof {
                                    lemma_if_scan_fault(
                                        ls,
                                        i as int,
                                        ls.len() as int,
                                        ParseFault::LineOverflow,
                                    );
                                }
                                return Err(ParseFault::LineOverflow);
                            }
                            let num: u32 = match parse_u32_str(num_s.as_str()) {
                                Some(x) => x,
                                None => 0,
                            };
                            let rec = Interface {
                                int_type: fam,
                                module: m,
                                number: num,
                                ip_address: ip,
                                status,
                            };
                            let copy = Interface {
                                int_type: rec.int_type.clone(),
                                module: rec.module,
                                number: rec.number,
                                ip_address: rec.ip_address.clone(),
                                status: rec.status.clone(),
                            };
                            let ghost prev_list = list.deep_view();
                            let ghost prev_map = map@;
                            map.insert(nr_idx as u32, rec);
                            list.push((nr_idx as u32, copy));
                            proof {
                                assert(list.deep_view() =~= prev_list.push(
                                    (nr_idx as u32, copy@),
                                ));
                                assert(list.deep_view().drop_last() =~= prev_list);
                                assert(if_map_view(map@) =~= if_list_map(list.deep_view()));
                            }
                        },
                    }
                },
            }
        }
        i = i + 1;
    }
    proof {
        assert(spec_if_scan(ls, ls.len() as int) == Ok::<_, ParseFault>(
            IfScan {
                if_i: if_i as int,
                ip_i: ip_i as int,
                ok_i: ok_i as int,
                method_i: method_i as int,
                status_i: status_i as int,
                proto_i: proto_i as int,
                list: list.deep_view(),
            },
        ));
    }
    Ok((map, list))
}

} // verus!
