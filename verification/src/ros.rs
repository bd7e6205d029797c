//! The router's REST answers read into plain values, and the paths the
//! service asks for.

use vstd::prelude::*;
use crate::keyed::KeyedList;
use crate::numtext::{i64_text, int_text, parse_i64, parse_i64_spec};
use crate::order::{sorted_distinct, sorted_set_of};
use crate::text::{
    concat, first_index, is_first_index, seq_starts_with, str_chars, str_eq, str_starts_with,
    string_of, to_uppercase, uppercase_text, views,
};

verus! {

// ------------------------------------------------------------------ ARP table

/// One row of the router's ARP table, as far as its fields are strings.
#[derive(Debug, Clone)]
pub struct ArpEntry {
    pub mac_address: Option<String>,
    pub address: Option<String>,
}

/// The (MAC, address) pairs of rows with both fields.
pub open spec fn arp_fold(rows: Seq<ArpEntry>) -> Map<Seq<char>, Seq<char>>
    decreases rows.len(),
{
    if rows.len() == 0 {
        Map::empty()
    } else {
        let prev = arp_fold(rows.drop_last());
        match (rows.last().mac_address, rows.last().address) {
            (Some(m), Some(a)) => prev.insert(uppercase_text(m@), a@),
            _ => prev,
        }
    }
}

/// The view of a map of texts.
pub open spec fn text_map(m: Map<Seq<char>, String>) -> Map<Seq<char>, Seq<char>> {
    Map::new(|k: Seq<char>| m.contains_key(k), |k: Seq<char>| m[k]@)
}

/// The address of each device in the ARP table, by uppercased MAC (a later
/// row wins).
pub fn mac_ip_map(rows: &[ArpEntry]) -> (r: KeyedList<String>)
    ensures
        r.wf(),
        text_map(r.view()) == arp_fold(rows@),
{
    let mut map: KeyedList<String> = KeyedList::new();
    let mut i: usize = 0;
    assert(text_map(map.view()) =~= arp_fold(rows@.take(0)));
    while i < rows.len()
        invariant
            i <= rows@.len(),
            map.wf(),
            text_map(map.view()) == arp_fold(rows@.take(i as int)),
        decreases rows.len() - i,
    {
        proof {
            assert(rows@.take(i + 1).drop_last() =~= rows@.take(i as int));
            assert(rows@.take(i + 1).last() == rows@[i as int]);
        }
        match (&rows[i].mac_address, &rows[i].address) {
            (Some(m), Some(a)) => {
                let ghost before = text_map(map.view());
                let key = to_uppercase(m.as_str());
                let ghost kv = key@;
                map.insert(key, a.clone());
                assert(text_map(map.view()) =~= before.insert(kv, a@));
            },
            _ => {},
        }
        i = i + 1;
    }
    assert(rows@.take(rows@.len() as int) =~= rows@);
    map
}

// ------------------------------------------------------------------ connections

/// One tracked connection, as far as its fields are strings.
#[derive(Debug, Clone)]
pub struct ConnEntry {
    pub orig_bytes: Option<String>,
    pub repl_bytes: Option<String>,
    pub dst_address: Option<String>,
}

/// A device's connections summed up.
#[derive(Debug, Clone)]
pub struct ConnectionDetail {
    pub total_bytes: i64,
    pub conn_count: i32,
    pub dst_ips: Vec<String>,
}

/// A byte counter read as a number; 0 when missing or not a number.
pub open spec fn counter(o: Option<String>) -> int {
    match o {
        Some(s) => match parse_i64_spec(s@) {
            Some(n) => n as int,
            None => 0,
        },
        None => 0,
    }
}

/// The bytes of all connections, both directions.
pub open spec fn total_bytes(rows: Seq<ConnEntry>) -> int
    decreases rows.len(),
{
    if rows.len() == 0 {
        0
    } else {
        total_bytes(rows.drop_last()) + counter(rows.last().orig_bytes) + counter(
            rows.last().repl_bytes,
        )
    }
}

/// Every running sum, added in order, stays in the `i64` range.
pub open spec fn sums_fit(rows: Seq<ConnEntry>) -> bool
    decreases rows.len(),
{
    if rows.len() == 0 {
        true
    } else {
        let p = total_bytes(rows.drop_last());
        let a = p + counter(rows.last().orig_bytes);
        sums_fit(rows.drop_last()) && i64::MIN <= a <= i64::MAX && i64::MIN <= a + counter(
            rows.last().repl_bytes,
        ) <= i64::MAX
    }
}

/// The text before the first `c` (all of it when there is none).
pub open spec fn before_first(s: Seq<char>, c: char) -> Seq<char>
    decreases s.len(),
{
    if s.len() == 0 {
        s
    } else if s[0] == c {
        Seq::empty()
    } else {
        seq![s[0]] + before_first(s.drop_first(), c)
    }
}

/// The target address of a connection: its destination before any `:`.
pub open spec fn target_of(e: ConnEntry) -> Option<Seq<char>> {
    match e.dst_address {
        Some(d) => Some(before_first(d@, ':')),
        None => None,
    }
}

/// The distinct target addresses of the connections (the part of the
/// target before any `:`), when not empty.
pub open spec fn targets(rows: Seq<ConnEntry>) -> Set<Seq<char>> {
    Set::new(
        |t: Seq<char>|
            t.len() > 0 && exists|i: int|
                0 <= i < rows.len() && target_of(#[trigger] rows[i]) == Some(t),
    )
}

fn counter_value(o: &Option<String>) -> (r: i64)
    ensures
        r == counter(*o),
{
    match o {
        Some(s) => {
            let cs = str_chars(s.as_str());
            match parse_i64(cs.as_slice()) {
                Some(n) => n,
                None => 0,
            }
        },
        None => 0,
    }
}

/// The text before the first `c`.
pub fn text_before(s: &str, c: char) -> (r: String)
    ensures
        r@ == before_first(s@, c),
{
    let cs = str_chars(s);
    let mut out: Vec<char> = Vec::new();
    let mut i: usize = 0;
    assert(cs@.skip(0) =~= cs@);
    while i < cs.len() && cs[i] != c
        invariant
            i <= cs@.len(),
            before_first(s@, c) == out@ + before_first(cs@.skip(i as int), c),
            cs@ == s@,
        decreases cs.len() - i,
    {
        proof {
            let t = cs@.skip(i as int);
            assert(t.drop_first() =~= cs@.skip(i + 1));
            assert(out@.push(cs@[i as int]) + before_first(cs@.skip(i + 1), c) =~= out@ + (seq![
                t[0],
            ] + before_first(t.drop_first(), c)));
        }
        out.push(cs[i]);
        i = i + 1;
    }
    proof {
        let t = cs@.skip(i as int);
        if i < cs@.len() {
            assert(t[0] == c);
        }
        assert(before_first(t, c) =~= Seq::<char>::empty());
        assert(out@ + Seq::<char>::empty() =~= out@);
    }
    string_of(out.as_slice())
}

/// The byte total and connection count of a device's connections.
pub fn connection_totals(rows: &[ConnEntry]) -> (r: (i64, i32))
    requires
        sums_fit(rows@),
        rows@.len() <= i32::MAX,
    ensures
        r.0 == total_bytes(rows@),
        r.1 == rows@.len(),
{
    proof {
        assert forall|k: int| 0 <= k <= rows@.len() implies #[trigger] sums_fit(rows@.take(k)) by {
            lemma_sums_fit_prefix(rows@, k);
        }
    }
    let mut total: i64 = 0;
    let mut count: i32 = 0;
    let mut i: usize = 0;
    while i < rows.len()
        invariant
            i <= rows@.len(),
            rows@.len() <= i32::MAX,
            forall|k: int| 0 <= k <= rows@.len() ==> #[trigger] sums_fit(rows@.take(k)),
            total == total_bytes(rows@.take(i as int)),
            count == i,
        decreases rows.len() - i,
    {
        proof {
            assert(rows@.take(i + 1).drop_last() =~= rows@.take(i as int));
            assert(rows@.take(i + 1).last() == rows@[i as int]);
            assert(sums_fit(rows@.take(i + 1)));
        }
        total = total + counter_value(&rows[i].orig_bytes);
        total = total + counter_value(&rows[i].repl_bytes);
        count = count + 1;
        i = i + 1;
    }
    assert(rows@.take(rows@.len() as int) =~= rows@);
    (total, count)
}

/// Summing the connections' bytes stays in the `i64` range (summing them
/// with plain additions panics otherwise).
pub fn connection_sums_fit(rows: &[ConnEntry]) -> (r: bool)
    ensures
        r == sums_fit(rows@),
{
    let mut total: i64 = 0;
    let mut i: usize = 0;
    while i < rows.len()
        invariant
            i <= rows@.len(),
            sums_fit(rows@.take(i as int)),
            total == total_bytes(rows@.take(i as int)),
        decreases rows.len() - i,
    {
        proof {
            assert(rows@.take(i + 1).drop_last() =~= rows@.take(i as int));
            assert(rows@.take(i + 1).last() == rows@[i as int]);
        }
        let a = match total.checked_add(counter_value(&rows[i].orig_bytes)) {
            Some(a) => a,
            None => {
                proof {
                    lemma_unfit_prefix(rows@, i as int + 1);
                }
                return false;
            },
        };
        total = match a.checked_add(counter_value(&rows[i].repl_bytes)) {
            Some(b) => b,
            None => {
                proof {
                    lemma_unfit_prefix(rows@, i as int + 1);
                }
                return false;
            },
        };
        i = i + 1;
    }
    assert(rows@.take(rows@.len() as int) =~= rows@);
    true
}

proof fn lemma_unfit_prefix(rows: Seq<ConnEntry>, k: int)
    requires
        0 < k <= rows.len(),
        !sums_fit(rows.take(k)),
    ensures
        !sums_fit(rows),
    decreases rows.len() - k,
{
    if k < rows.len() {
        assert(rows.take(k + 1).drop_last() =~= rows.take(k));
        lemma_unfit_prefix(rows, k + 1);
    } else {
        assert(rows.take(k) =~= rows);
    }
}

proof fn lemma_sums_fit_prefix(rows: Seq<ConnEntry>, k: int)
    requires
        sums_fit(rows),
        0 <= k <= rows.len(),
    ensures
        sums_fit(rows.take(k)),
    decreases rows.len(),
{
    if k < rows.len() {
        assert(rows.drop_last().take(k) =~= rows.take(k));
        lemma_sums_fit_prefix(rows.drop_last(), k);
    } else {
        assert(rows.take(k) =~= rows);
    }
}

/// Sums up a device's connections: bytes in both directions, how many,
/// and the distinct target addresses, sorted.
pub fn summarize_connections(rows: &[ConnEntry]) -> (r: ConnectionDetail)
    requires
        sums_fit(rows@),
        rows@.len() <= i32::MAX,
    ensures
        r.total_bytes == total_bytes(rows@),
        r.conn_count == rows@.len(),
        sorted_set_of(views(r.dst_ips@), targets(rows@)),
{
    let (total, count) = connection_totals(rows);
    let mut ips: Vec<String> = Vec::new();
    let mut i: usize = 0;
    while i < rows.len()
        invariant
            i <= rows@.len(),
            views(ips@).to_set() == targets(rows@.take(i as int)),
        decreases rows.len() - i,
    {
        let ghost before = views(ips@);
        match &rows[i].dst_address {
            Some(d) => {
                let ip_part = text_before(d.as_str(), ':');
                if !ip_part.as_str().is_empty() {
                    ips.push(ip_part);
                    proof {
                        assert(views(ips@) =~= before.push(before_first(d@, ':')));
                        before.lemma_push_to_set_commute(before_first(d@, ':'));
                    }
                }
            },
            None => {},
        }
        proof {
            let tk = rows@.take(i as int);
            let tk1 = rows@.take(i + 1);
            let e = rows@[i as int];
            assert(tk1 =~= tk.push(e));
            let added = match target_of(e) {
                Some(t) => t.len() > 0,
                None => false,
            };
            if added {
                assert(views(ips@).to_set() == before.to_set().insert(target_of(e).unwrap()));
            } else {
                assert(views(ips@) == before);
            }
            assert forall|t: Seq<char>| targets(tk1).contains(t) <==> (targets(tk).contains(t) || (
            t.len() > 0 && target_of(e) == Some(t))) by {
                if targets(tk1).contains(t) {
                    let j = choose|j: int| 0 <= j < tk1.len() && target_of(#[trigger] tk1[j]) == Some(t);
                    if j < i {
                        assert(tk[j] == tk1[j]);
                    }
                }
                if targets(tk).contains(t) {
                    let j = choose|j: int| 0 <= j < tk.len() && target_of(#[trigger] tk[j]) == Some(t);
                    assert(tk1[j] == tk[j]);
                }
                if t.len() > 0 && target_of(e) == Some(t) {
                    assert(tk1[i as int] == e);
                }
            }
            assert(views(ips@).to_set() =~= targets(tk1));
        }
        i = i + 1;
    }
    assert(rows@.take(rows@.len() as int) =~= rows@);
    let sorted = sorted_distinct(ips.as_slice());
    ConnectionDetail { total_bytes: total, conn_count: count, dst_ips: sorted }
}

/// The query for a device's connections by source address.
pub fn connections_query(ip: &str) -> (r: String)
    ensures
        r@ == "/ip/connection?src-address~="@ + ip@,
{
    concat("/ip/connection?src-address~=", ip)
}

/// The query for connections by destination address.
pub fn connections_to_query(ip: &str) -> (r: String)
    ensures
        r@ == "/ip/connection?dst-address~="@ + ip@,
{
    concat("/ip/connection?dst-address~=", ip)
}

// ------------------------------------------------------------------ firewall

/// The query for a device's rows in an address list.
pub fn address_list_query(list_name: &str, ip: &str) -> (r: String)
    ensures
        r@ == "/ip/firewall/address-list?list="@ + list_name@ + "&address="@ + ip@,
{
    let mut q = concat("/ip/firewall/address-list?list=", list_name);
    q.append("&address=");
    q.append(ip);
    q
}

/// How many rows an address-list query found: -1 when the router gave no
/// list (the count is cut to 32 bits as `as i32` does).
pub fn address_list_count(rows: Option<usize>) -> (r: i32)
    ensures
        r == match rows {
            Some(n) => n as i32,
            None => -1i32,
        },
{
    match rows {
        Some(n) => n as i32,
        None => -1,
    }
}

/// The paths that delete the given address-list rows (by `.id`; rows
/// without one are left alone).
pub fn address_list_delete_paths(ids: &[Option<String>]) -> (r: Vec<String>)
    ensures
        views(r@) == ids_paths(ids@),
{
    let mut out: Vec<String> = Vec::new();
    let mut i: usize = 0;
    while i < ids.len()
        invariant
            i <= ids@.len(),
            views(out@) == ids_paths(ids@.take(i as int)),
        decreases ids.len() - i,
    {
        proof {
            assert(ids@.take(i + 1).drop_last() =~= ids@.take(i as int));
        }
        match &ids[i] {
            Some(id) => {
                let ghost before = views(out@);
                out.push(concat("/ip/firewall/address-list/", id.as_str()));
                assert(views(out@) =~= before.push("/ip/firewall/address-list/"@ + id@));
            },
            None => {},
        }
        i = i + 1;
    }
    assert(ids@.take(ids@.len() as int) =~= ids@);
    out
}

/// The delete paths of rows with an `.id`, in order.
pub open spec fn ids_paths(ids: Seq<Option<String>>) -> Seq<Seq<char>>
    decreases ids.len(),
{
    if ids.len() == 0 {
        Seq::empty()
    } else {
        let prev = ids_paths(ids.drop_last());
        match ids.last() {
            Some(id) => prev.push("/ip/firewall/address-list/"@ + id@),
            None => prev,
        }
    }
}

/// One IPv6 filter rule, as far as its fields are strings.
#[derive(Debug, Clone)]
pub struct FilterRule {
    pub comment: Option<String>,
    pub id: Option<String>,
}

/// The rule's comment, empty when missing.
pub open spec fn comment_of(r: FilterRule) -> Seq<char> {
    match r.comment {
        Some(c) => c@,
        None => Seq::empty(),
    }
}

/// The first rule carrying the comment that also has an `.id`.
pub open spec fn first_rule_with(rules: Seq<FilterRule>, comment: Seq<char>, from: int) -> Option<int>
    decreases rules.len() - from,
{
    if from < 0 || from >= rules.len() {
        None
    } else if comment_of(rules[from]) == comment && rules[from].id is Some {
        Some(from)
    } else {
        first_rule_with(rules, comment, from + 1)
    }
}

/// The path that switches the first rule with this comment (and an id),
/// if there is one; only that rule is changed.
pub fn rule_patch_path(rules: &[FilterRule], comment: &str) -> (r: Option<String>)
    ensures
        match first_rule_with(rules@, comment@, 0) {
            Some(k) => r matches Some(p) && p@ == "/ipv6/firewall/filter/"@ + rules@[k].id.unwrap()@,
            None => r is None,
        },
{
    let mut i: usize = 0;
    while i < rules.len()
        invariant
            i <= rules@.len(),
            first_rule_with(rules@, comment@, 0) == first_rule_with(rules@, comment@, i as int),
        decreases rules.len() - i,
    {
        let rc = match &rules[i].comment {
            Some(c) => String::from_str(c.as_str()),
            None => String::new(),
        };
        if str_eq(rc.as_str(), comment) {
            match &rules[i].id {
                Some(id) => {
                    return Some(concat("/ipv6/firewall/filter/", id.as_str()));
                },
                None => {},
            }
        }
        i = i + 1;
    }
    None
}

// ------------------------------------------------------------------ addresses

/// The REST root of the router.
pub fn ros_base_url(host: &str, port: u16) -> (r: String)
    ensures
        r@ == "http://"@ + host@ + ":"@ + int_text(port as int) + "/rest"@,
{
    let mut u = concat("http://", host);
    u.append(":");
    let p = i64_text(port as i64);
    u.append(p.as_str());
    u.append("/rest");
    u
}

/// A path under the REST root; a `/` is put between them when the path
/// lacks one.
pub fn ros_url(base: &str, path: &str) -> (r: String)
    ensures
        r@ == if seq_starts_with(path@, "/"@) {
            base@ + path@
        } else {
            base@ + "/"@ + path@
        },
{
    if str_starts_with(path, "/") {
        concat(base, path)
    } else {
        let mut u = concat(base, "/");
        u.append(path);
        u
    }
}

} // verus!
