//! The registry of game-server addresses: exact addresses and IPv4 CIDR
//! blocks, entered by hand or discovered from DNS answers and connections.

use vstd::prelude::*;
use crate::clock::{date_text_shape, local_today};
use crate::numtext::{parse_u32, parse_u32_spec};
use crate::text::{
    char_views, lowercase_text, seq_ends_with, seq_starts_with, split_chars, split_on,
    str_chars, str_eq, str_starts_with, to_lowercase, views,
};

verus! {

// ------------------------------------------------------------------ types

/// One address or CIDR block of the registry.
#[derive(Debug, Clone)]
pub struct GameIpEntry {
    pub addr: String,
    /// `manual` or `auto`.
    pub source: String,
    pub label: Option<String>,
    pub first_seen: Option<String>,
}

/// The game-server registry: domain patterns and addresses.
#[derive(Debug, Clone)]
pub struct GameIpRegistry {
    pub domains: Vec<String>,
    pub ips: Vec<GameIpEntry>,
}

/// An entry as plain texts.
pub struct EntryView {
    pub addr: Seq<char>,
    pub source: Seq<char>,
    pub label: Option<Seq<char>>,
    pub first_seen: Option<Seq<char>>,
}

/// The view of an optional string.
pub open spec fn opt_view(o: Option<String>) -> Option<Seq<char>> {
    match o {
        Some(s) => Some(s@),
        None => None,
    }
}

impl View for GameIpEntry {
    type V = EntryView;

    open spec fn view(&self) -> EntryView {
        EntryView {
            addr: self.addr@,
            source: self.source@,
            label: opt_view(self.label),
            first_seen: opt_view(self.first_seen),
        }
    }
}

/// The views of a sequence of entries.
pub open spec fn entry_views(s: Seq<GameIpEntry>) -> Seq<EntryView> {
    s.map_values(|e: GameIpEntry| e@)
}

/// The addresses of a sequence of entries.
pub open spec fn addrs_of(s: Seq<GameIpEntry>) -> Seq<Seq<char>> {
    s.map_values(|e: GameIpEntry| e.addr@)
}

/// The view of an optional string slice.
pub open spec fn opt_str_view(o: Option<&str>) -> Option<Seq<char>> {
    match o {
        Some(s) => Some(s@),
        None => None,
    }
}

/// An entry found automatically on `today`.
pub open spec fn auto_entry(addr: Seq<char>, today: Seq<char>) -> EntryView {
    EntryView { addr, source: "auto"@, label: None, first_seen: Some(today) }
}

/// An entry added by hand on `today`.
pub open spec fn manual_entry(addr: Seq<char>, label: Option<Seq<char>>, today: Seq<char>) -> EntryView {
    EntryView { addr, source: "manual"@, label, first_seen: Some(today) }
}

// ------------------------------------------------------------------ IPv4 and CIDR

/// Folds the first `n` dotted parts into a number as `(r << 8) | part`.
pub open spec fn ipv4_fold(parts: Seq<Seq<char>>, n: int) -> Option<u32>
    decreases n,
{
    if n <= 0 {
        Some(0u32)
    } else {
        match ipv4_fold(parts, n - 1) {
            None => None,
            Some(r) => match parse_u32_spec(parts[n - 1]) {
                None => None,
                Some(o) => Some((r << 8u32) | o),
            },
        }
    }
}

/// An IPv4 address as a number: exactly four dot-separated `u32` texts,
/// each shifted in by eight bits (a part above 255 mixes into its
/// neighbour, as the plain shift-and-or does).
pub open spec fn parse_ipv4_spec(s: Seq<char>) -> Option<u32> {
    let parts = split_on(s, '.');
    if parts.len() != 4 {
        None
    } else {
        ipv4_fold(parts, 4)
    }
}

/// Reads an IPv4 address as a number.
pub fn parse_ipv4(s: &str) -> (r: Option<u32>)
    ensures
        r == parse_ipv4_spec(s@),
{
    let cs = str_chars(s);
    let parts = split_chars(cs.as_slice(), '.');
    if parts.len() != 4 {
        return None;
    }
    let ghost pv = char_views(parts@);
    let mut result: u32 = 0;
    let mut i: usize = 0;
    while i < 4
        invariant
            i <= 4,
            parts@.len() == 4,
            pv == char_views(parts@),
            pv == split_on(s@, '.'),
            ipv4_fold(pv, i as int) == Some(result),
        decreases 4 - i,
    {
        let octet = match parse_u32(parts[i].as_slice()) {
            Some(o) => o,
            None => {
                proof {
                    assert(pv[i as int] == parts@[i as int]@);
                    lemma_ipv4_fold_none(pv, i as int + 1, 4);
                }
                return None;
            },
        };
        assert(pv[i as int] == parts@[i as int]@);
        result = (result << 8u32) | octet;
        i = i + 1;
    }
    Some(result)
}

proof fn lemma_ipv4_fold_none(parts: Seq<Seq<char>>, n: int, m: int)
    requires
        0 < n <= m,
        ipv4_fold(parts, n - 1) is Some,
        parse_u32_spec(parts[n - 1]) is None,
    ensures
        ipv4_fold(parts, m) is None,
    decreases m - n,
{
    if m > n {
        lemma_ipv4_fold_none(parts, n, m - 1);
    }
}

/// The mask of the top `m` bits, `!0u32 << (32 - m)`, for `1 <= m <= 32`.
pub open spec fn prefix_mask(m: u32) -> u32 {
    0xffff_ffffu32 << ((32 - m) as u32)
}

/// What `cidr_match` answers (on the inputs where it does not panic): a
/// text without exactly one `/` matches only itself; else the mask length
/// and both addresses must parse, and then a zero mask matches everything
/// and any other compares the masked addresses.
pub open spec fn cidr_match_spec(ip: Seq<char>, cidr: Seq<char>) -> bool {
    let parts = split_on(cidr, '/');
    if parts.len() != 2 {
        ip == cidr
    } else {
        match parse_u32_spec(parts[1]) {
            None => false,
            Some(m) => match parse_ipv4_spec(ip) {
                None => false,
                Some(a) => match parse_ipv4_spec(parts[0]) {
                    None => false,
                    Some(b) => m == 0 || (a & prefix_mask(m)) == (b & prefix_mask(m)),
                },
            },
        }
    }
}

/// `cidr_match` overflows computing `32 - m` (and panics): the mask length
/// is above 32 while both addresses parse.
pub open spec fn cidr_panics(ip: Seq<char>, cidr: Seq<char>) -> bool {
    let parts = split_on(cidr, '/');
    parts.len() == 2 && match parse_u32_spec(parts[1]) {
        Some(m) => m > 32 && parse_ipv4_spec(ip) is Some && parse_ipv4_spec(parts[0]) is Some,
        None => false,
    }
}

/// Matches an IPv4 address against a CIDR block such as `211.95.155.0/24`.
pub fn cidr_match(ip: &str, cidr: &str) -> (r: bool)
    requires
        !cidr_panics(ip@, cidr@),
    ensures
        r == cidr_match_spec(ip@, cidr@),
{
    let cs = str_chars(cidr);
    let parts = split_chars(cs.as_slice(), '/');
    proof {
        assert(char_views(parts@) == split_on(cidr@, '/'));
    }
    if parts.len() != 2 {
        return str_eq(ip, cidr);
    }
    assert(char_views(parts@)[0] == parts@[0]@);
    assert(char_views(parts@)[1] == parts@[1]@);
    let mask_bits = match parse_u32(parts[1].as_slice()) {
        Some(v) => v,
        None => return false,
    };
    let ip_num = match parse_ipv4(ip) {
        Some(v) => v,
        None => return false,
    };
    let prefix_text = crate::text::string_of(parts[0].as_slice());
    let prefix_num = match parse_ipv4(prefix_text.as_str()) {
        Some(v) => v,
        None => return false,
    };
    if mask_bits == 0 {
        return true;
    }
    let mask: u32 = 0xffff_ffffu32 << (32 - mask_bits);
    (ip_num & mask) == (prefix_num & mask)
}

/// `pattern` holds a `/`.
pub open spec fn has_slash(pattern: Seq<char>) -> bool {
    pattern.contains('/')
}

/// An address matches a registry entry: a CIDR block by prefix, anything
/// else by equality.
pub open spec fn ip_match_spec(ip: Seq<char>, pattern: Seq<char>) -> bool {
    if has_slash(pattern) {
        cidr_match_spec(ip, pattern)
    } else {
        ip == pattern
    }
}

/// Matching `ip` against `pattern` panics.
pub open spec fn ip_match_panics(ip: Seq<char>, pattern: Seq<char>) -> bool {
    has_slash(pattern) && cidr_panics(ip, pattern)
}

/// Matches an address against one registry entry.
pub fn ip_match(ip: &str, pattern: &str) -> (r: bool)
    requires
        !ip_match_panics(ip@, pattern@),
    ensures
        r == ip_match_spec(ip@, pattern@),
{
    let pc = str_chars(pattern);
    if crate::text::first_index(pc.as_slice(), '/').is_some() {
        cidr_match(ip, pattern)
    } else {
        str_eq(ip, pattern)
    }
}

// ------------------------------------------------------------------ domain patterns

/// `pattern` with every leading `*.` taken off.
pub open spec fn trim_wildcards(p: Seq<char>) -> Seq<char>
    decreases p.len(),
{
    if p.len() >= 2 && p[0] == '*' && p[1] == '.' {
        trim_wildcards(p.skip(2))
    } else {
        p
    }
}

/// `*.preternatural.cn` (or `preternatural.cn`) matches that domain and
/// every domain under it.
pub open spec fn domain_match_spec(domain: Seq<char>, pattern: Seq<char>) -> bool {
    let p = trim_wildcards(pattern);
    domain == p || seq_ends_with(domain, seq!['.'] + p)
}

/// Matches a domain against a pattern such as `*.preternatural.cn`.
pub fn domain_match(domain: &str, pattern: &str) -> (r: bool)
    ensures
        r == domain_match_spec(domain@, pattern@),
{
    let pc = str_chars(pattern);
    let mut start: usize = 0;
    assert(pc@.skip(0) =~= pc@);
    while pc.len() - start >= 2 && pc[start] == '*' && pc[start + 1] == '.'
        invariant
            start <= pc@.len(),
            trim_wildcards(pattern@) == trim_wildcards(pc@.skip(start as int)),
            pc@ == pattern@,
        decreases pc.len() - start,
    {
        assert(pc@.skip(start as int).skip(2) =~= pc@.skip(start + 2));
        start = start + 2;
    }
    let mut p: Vec<char> = Vec::new();
    let mut k: usize = start;
    while k < pc.len()
        invariant
            start <= k <= pc@.len(),
            p@ == pc@.subrange(start as int, k as int),
        decreases pc.len() - k,
    {
        p.push(pc[k]);
        k = k + 1;
    }
    assert(p@ =~= pc@.skip(start as int));
    assert(trim_wildcards(pc@.skip(start as int)) == pc@.skip(start as int));
    let dc = str_chars(domain);
    if crate::text::chars_eq(dc.as_slice(), p.as_slice()) {
        return true;
    }
    let mut dotted: Vec<char> = Vec::new();
    dotted.push('.');
    let mut j: usize = 0;
    while j < p.len()
        invariant
            j <= p@.len(),
            dotted@ == seq!['.'] + p@.take(j as int),
        decreases p.len() - j,
    {
        dotted.push(p[j]);
        j = j + 1;
        assert(p@.take(j as int) == p@.take(j - 1).push(p@[j - 1]));
    }
    assert(p@.take(p@.len() as int) =~= p@);
    crate::text::has_suffix(dc.as_slice(), dotted.as_slice())
}

// ------------------------------------------------------------------ spec of the operations

/// The first entry that `ip` matches, among the first `n`, panics before a
/// match is found.
pub open spec fn lookup_panics(ip: Seq<char>, addrs: Seq<Seq<char>>) -> bool {
    exists|k: int|
        0 <= k < addrs.len() && ip_match_panics(ip, #[trigger] addrs[k]) && forall|j: int|
            0 <= j < k ==> !ip_match_spec(ip, addrs[j])
}

/// Some entry matches `ip`.
pub open spec fn is_game_ip_spec(ip: Seq<char>, addrs: Seq<Seq<char>>) -> bool {
    exists|k: int| 0 <= k < addrs.len() && ip_match_spec(ip, #[trigger] addrs[k])
}

/// The addresses among `cands` that discovery adds, in order: those that
/// pass `ok` and are in neither `existing` nor an earlier candidate.
pub open spec fn fresh_addrs(
    existing: Seq<Seq<char>>,
    cands: Seq<Seq<char>>,
    dns: bool,
) -> Seq<Seq<char>>
    decreases cands.len(),
{
    if cands.len() == 0 {
        Seq::empty()
    } else {
        let prev = fresh_addrs(existing, cands.drop_last(), dns);
        let a = cands.last();
        if !cand_ok(a, dns) || (existing + prev).contains(a) {
            prev
        } else {
            prev.push(a)
        }
    }
}

/// A candidate passes the filter of its kind (DNS answer or connection target).
pub open spec fn cand_ok(a: Seq<char>, dns: bool) -> bool {
    if dns {
        dns_answer_ok(a)
    } else {
        conn_target_ok(a)
    }
}

/// The entries after discovery on `today`: the old ones, then an automatic
/// entry for each fresh candidate.
pub open spec fn after_discovery(
    old_entries: Seq<EntryView>,
    old_addrs: Seq<Seq<char>>,
    cands: Seq<Seq<char>>,
    dns: bool,
    today: Seq<char>,
) -> Seq<EntryView> {
    old_entries + fresh_addrs(old_addrs, cands, dns).map_values(|a: Seq<char>| auto_entry(a, today))
}

/// A DNS answer can name a game server: not empty and not `::`.
pub open spec fn dns_answer_ok(a: Seq<char>) -> bool {
    a.len() > 0 && a != "::"@
}

/// A connection target can be a game server: not empty and not in the
/// private ranges written as `10.`, `192.168.`, `172.`.
pub open spec fn conn_target_ok(a: Seq<char>) -> bool {
    a.len() > 0 && !seq_starts_with(a, "10."@) && !seq_starts_with(a, "192.168."@)
        && !seq_starts_with(a, "172."@)
}

/// Some looked-up domain (lowercased) matches some registry pattern.
/// Some already lowercased domain matches some pattern.
pub open spec fn is_lowered_game_domain(lowered: Seq<Seq<char>>, patterns: Seq<Seq<char>>) -> bool {
    exists|i: int, j: int|
        0 <= i < lowered.len() && 0 <= j < patterns.len() && domain_match_spec(
            #[trigger] lowered[i],
            #[trigger] patterns[j],
        )
}

pub open spec fn is_game_domain(domains: Seq<Seq<char>>, patterns: Seq<Seq<char>>) -> bool {
    exists|i: int, j: int|
        0 <= i < domains.len() && 0 <= j < patterns.len() && domain_match_spec(
            lowercase_text(#[trigger] domains[i]),
            #[trigger] patterns[j],
        )
}

/// The entries of `s` whose address is not `a`.
pub open spec fn without_addr(s: Seq<EntryView>, a: Seq<char>) -> Seq<EntryView>
    decreases s.len(),
{
    if s.len() == 0 {
        s
    } else {
        let prev = without_addr(s.drop_last(), a);
        if s.last().addr == a {
            prev
        } else {
            prev.push(s.last())
        }
    }
}

/// The texts of `s` other than `t`.
pub open spec fn without_text(s: Seq<Seq<char>>, t: Seq<char>) -> Seq<Seq<char>>
    decreases s.len(),
{
    if s.len() == 0 {
        s
    } else {
        let prev = without_text(s.drop_last(), t);
        if s.last() == t {
            prev
        } else {
            prev.push(s.last())
        }
    }
}

/// The entries of `s` from the given source.
pub open spec fn from_source(s: Seq<GameIpEntry>, src: Seq<char>) -> Seq<GameIpEntry>
    decreases s.len(),
{
    if s.len() == 0 {
        s
    } else {
        let prev = from_source(s.drop_last(), src);
        if s.last().source@ == src {
            prev.push(s.last())
        } else {
            prev
        }
    }
}

pub proof fn lemma_without_addr_len(s: Seq<EntryView>, a: Seq<char>)
    ensures
        without_addr(s, a).len() <= s.len(),
        (without_addr(s, a).len() < s.len()) <==> exists|k: int|
            0 <= k < s.len() && (#[trigger] s[k]).addr == a,
        forall|k: int|
            0 <= k < without_addr(s, a).len() ==> (#[trigger] without_addr(s, a)[k]).addr != a,
    decreases s.len(),
{
    if s.len() > 0 {
        lemma_without_addr_len(s.drop_last(), a);
        let prev = without_addr(s.drop_last(), a);
        if exists|k: int| 0 <= k < s.drop_last().len() && (#[trigger] s.drop_last()[k]).addr == a {
            let k = choose|k: int| 0 <= k < s.drop_last().len() && (#[trigger] s.drop_last()[k]).addr == a;
            assert(s[k] == s.drop_last()[k]);
        }
        if exists|k: int| 0 <= k < s.len() && (#[trigger] s[k]).addr == a {
            let k = choose|k: int| 0 <= k < s.len() && (#[trigger] s[k]).addr == a;
            if k < s.len() - 1 {
                assert(s.drop_last()[k] == s[k]);
            }
        }
    }
}

pub proof fn lemma_without_text_len(s: Seq<Seq<char>>, t: Seq<char>)
    ensures
        without_text(s, t).len() <= s.len(),
        (without_text(s, t).len() < s.len()) <==> s.contains(t),
        !without_text(s, t).contains(t),
    decreases s.len(),
{
    if s.len() > 0 {
        lemma_without_text_len(s.drop_last(), t);
        if s.drop_last().contains(t) {
            let k = choose|k: int| 0 <= k < s.drop_last().len() && s.drop_last()[k] == t;
            assert(s[k] == t);
        }
        if s.contains(t) {
            let k = choose|k: int| 0 <= k < s.len() && s[k] == t;
            if k < s.len() - 1 {
                assert(s.drop_last()[k] == t);
            }
        }
        let w = without_text(s, t);
        if w.contains(t) {
            let k = choose|k: int| 0 <= k < w.len() && w[k] == t;
            let prev = without_text(s.drop_last(), t);
            if k < prev.len() {
                assert(prev[k] == t);
            }
        }
    }
}

// ------------------------------------------------------------------ the registry

impl GameIpRegistry {
    /// The registry's addresses, in order.
    pub open spec fn addrs(&self) -> Seq<Seq<char>> {
        addrs_of(self.ips@)
    }

    /// Looking `ip` up in this registry panics.
    pub open spec fn lookup_panics(&self, ip: Seq<char>) -> bool {
        lookup_panics(ip, self.addrs())
    }

    /// Some entry holds exactly this address.
    fn has_addr(&self, addr: &str) -> (r: bool)
        ensures
            r == self.addrs().contains(addr@),
    {
        let mut i: usize = 0;
        while i < self.ips.len()
            invariant
                i <= self.ips@.len(),
                forall|k: int| 0 <= k < i ==> self.ips@[k].addr@ != addr@,
            decreases self.ips.len() - i,
        {
            if str_eq(self.ips[i].addr.as_str(), addr) {
                assert(self.addrs()[i as int] == addr@);
                return true;
            }
            i = i + 1;
        }
        assert(!self.addrs().contains(addr@)) by {
            if self.addrs().contains(addr@) {
                let k = choose|k: int| 0 <= k < self.addrs().len() && self.addrs()[k] == addr@;
                assert(self.ips@[k].addr@ == addr@);
            }
        }
        false
    }

    /// Looking `ip` up is defined: no entry makes the match panic before a
    /// match is found.
    pub fn lookup_is_defined(&self, ip: &str) -> (r: bool)
        ensures
            r == !self.lookup_panics(ip@),
    {
        let mut i: usize = 0;
        while i < self.ips.len()
            invariant
                i <= self.ips@.len(),
                forall|j: int| 0 <= j < i ==> !ip_match_spec(ip@, #[trigger] self.addrs()[j]),
                forall|j: int| 0 <= j < i ==> !ip_match_panics(ip@, #[trigger] self.addrs()[j]),
            decreases self.ips.len() - i,
        {
            assert(self.addrs()[i as int] == self.ips@[i as int].addr@);
            if !ip_match_checked(ip, self.ips[i].addr.as_str()) {
                proof {
                    assert(ip_match_panics(ip@, self.addrs()[i as int]));
                }
                return false;
            }
            if ip_match(ip, self.ips[i].addr.as_str()) {
                proof {
                    if self.lookup_panics(ip@) {
                        let k = choose|k: int|
                            0 <= k < self.addrs().len() && ip_match_panics(
                                ip@,
                                #[trigger] self.addrs()[k],
                            ) && forall|j: int| 0 <= j < k ==> !ip_match_spec(ip@, self.addrs()[j]);
                        if k > i {
                            assert(!ip_match_spec(ip@, self.addrs()[i as int]));
                        }
                    }
                }
                return true;
            }
            i = i + 1;
        }
        true
    }

    /// The address matches some entry: exactly, or inside a CIDR block.
    pub fn is_game_ip(&self, ip: &str) -> (r: bool)
        requires
            !self.lookup_panics(ip@),
        ensures
            r == is_game_ip_spec(ip@, self.addrs()),
    {
        let mut i: usize = 0;
        while i < self.ips.len()
            invariant
                i <= self.ips@.len(),
                !lookup_panics(ip@, self.addrs()),
                forall|j: int| 0 <= j < i ==> !ip_match_spec(ip@, #[trigger] self.addrs()[j]),
            decreases self.ips.len() - i,
        {
            assert(self.addrs()[i as int] == self.ips@[i as int].addr@);
            if ip_match(ip, self.ips[i].addr.as_str()) {
                return true;
            }
            i = i + 1;
        }
        false
    }

    /// Adds the candidates that pass `ok` and are new, as automatic entries.
    fn discover(&mut self, cands: &[String], dns: bool, today: &String) -> (added: bool)
        ensures
            final(self).domains@ == old(self).domains@,
            entry_views(final(self).ips@) == after_discovery(
                entry_views(old(self).ips@),
                old(self).addrs(),
                views(cands@),
                dns,
                today@,
            ),
            added == (fresh_addrs(
                old(self).addrs(),
                views(cands@),
                dns,
            ).len() > 0),
    {
        let ghost old_addrs = self.addrs();
        let ghost old_views = entry_views(self.ips@);
        let mut added = false;
        let mut i: usize = 0;
        while i < cands.len()
            invariant
                i <= cands@.len(),
                self.domains@ == old(self).domains@,
                old_addrs == old(self).addrs(),
                old_views == entry_views(old(self).ips@),
                entry_views(self.ips@) == old_views + fresh_addrs(
                    old_addrs,
                    views(cands@).take(i as int),
                    dns,
                ).map_values(|a: Seq<char>| auto_entry(a, today@)),
                self.addrs() == old_addrs + fresh_addrs(old_addrs, views(cands@).take(i as int), dns),
                added == (fresh_addrs(old_addrs, views(cands@).take(i as int), dns).len() > 0),
            decreases cands.len() - i,
        {
            let c = &cands[i];
            let ghost prev = fresh_addrs(old_addrs, views(cands@).take(i as int), dns);
            proof {
                assert(views(cands@).take(i + 1).drop_last() =~= views(cands@).take(i as int));
                assert(views(cands@).take(i + 1).last() == c@);
            }
            let passes = if dns {
                !c.as_str().is_empty() && !str_eq(c.as_str(), "::")
            } else {
                !c.as_str().is_empty() && !str_starts_with(c.as_str(), "10.") && !str_starts_with(
                    c.as_str(),
                    "192.168.",
                ) && !str_starts_with(c.as_str(), "172.")
            };
            proof {
                assert(passes == cand_ok(c@, dns));
            }
            if passes && !self.has_addr(c.as_str()) {
                let ghost before = entry_views(self.ips@);
                let ghost before_addrs = self.addrs();
                self.ips.push(
                    GameIpEntry {
                        addr: c.clone(),
                        source: String::from_str("auto"),
                        label: None,
                        first_seen: Some(today.clone()),
                    },
                );
                added = true;
                proof {
                    assert(entry_views(self.ips@) =~= before.push(auto_entry(c@, today@)));
                    assert(self.addrs() =~= before_addrs.push(c@));
                    assert(fresh_addrs(old_addrs, views(cands@).take(i + 1), dns) == prev.push(c@));
                    assert(prev.push(c@).map_values(|a: Seq<char>| auto_entry(a, today@))
                        =~= prev.map_values(|a: Seq<char>| auto_entry(a, today@)).push(
                        auto_entry(c@, today@),
                    ));
                    assert((old_addrs + prev).push(c@) =~= old_addrs + prev.push(c@));
                    assert((old_views + prev.map_values(|a: Seq<char>| auto_entry(a, today@))).push(
                        auto_entry(c@, today@),
                    ) =~= old_views + prev.push(c@).map_values(|a: Seq<char>| auto_entry(a, today@)));
                }
            } else {
                proof {
                    assert(fresh_addrs(old_addrs, views(cands@).take(i + 1), dns) == prev);
                }
            }
            i = i + 1;
        }
        assert(views(cands@).take(cands@.len() as int) =~= views(cands@));
        added
    }

    /// Learns game-server addresses from DNS answers, as found on `today`:
    /// when some looked-up domain matches a registry pattern, each new,
    /// non-empty answer other than `::` is added as an automatic entry.
    pub fn auto_discover_from_dns_on(
        &mut self,
        domains: &[String],
        answers: &[String],
        today: &String,
    ) -> (added: bool)
        ensures
            final(self).domains@ == old(self).domains@,
            !is_game_domain(views(domains@), views(old(self).domains@)) ==> (final(self).ips@
                == old(self).ips@ && !added),
            is_game_domain(views(domains@), views(old(self).domains@)) ==> {
                &&& entry_views(final(self).ips@) == after_discovery(
                    entry_views(old(self).ips@),
                    old(self).addrs(),
                    views(answers@),
                    true,
                    today@,
                )
                &&& added == (fresh_addrs(
                    old(self).addrs(),
                    views(answers@),
                    true,
                ).len() > 0)
            },
    {
        if !self.matches_game_domain(domains) {
            return false;
        }
        self.discover(answers, true, today)
    }

    /// `auto_discover_from_dns_on` with today's local date.
    pub fn auto_discover_from_dns(&mut self, domains: &[String], answers: &[String]) -> (added:
        bool)
        ensures
            final(self).domains@ == old(self).domains@,
            !is_game_domain(views(domains@), views(old(self).domains@)) ==> (final(self).ips@
                == old(self).ips@ && !added),
            is_game_domain(views(domains@), views(old(self).domains@)) ==> {
                &&& exists|today: Seq<char>|
                    date_text_shape(today) && entry_views(final(self).ips@) == #[trigger] after_discovery(
                        entry_views(old(self).ips@),
                        old(self).addrs(),
                        views(answers@),
                        true,
                        today,
                    )
                &&& added == (fresh_addrs(
                    old(self).addrs(),
                    views(answers@),
                    true,
                ).len() > 0)
            },
    {
        let today = local_today();
        self.auto_discover_from_dns_on(domains, answers, &today)
    }

    /// Learns game-server addresses from the targets of a device's
    /// connections, as found on `today`, while it is judged to be playing:
    /// each new public target is added as an automatic entry.
    pub fn auto_discover_from_conn_on(
        &mut self,
        dst_ips: &[String],
        is_playing: bool,
        today: &String,
    ) -> (added: bool)
        ensures
            final(self).domains@ == old(self).domains@,
            !is_playing ==> (final(self).ips@ == old(self).ips@ && !added),
            is_playing ==> {
                &&& entry_views(final(self).ips@) == after_discovery(
                    entry_views(old(self).ips@),
                    old(self).addrs(),
                    views(dst_ips@),
                    false,
                    today@,
                )
                &&& added == (fresh_addrs(
                    old(self).addrs(),
                    views(dst_ips@),
                    false,
                ).len() > 0)
            },
    {
        if !is_playing {
            return false;
        }
        self.discover(dst_ips, false, today)
    }

    /// `auto_discover_from_conn_on` with today's local date.
    pub fn auto_discover_from_conn(&mut self, dst_ips: &[String], is_playing: bool) -> (added:
        bool)
        ensures
            final(self).domains@ == old(self).domains@,
            !is_playing ==> (final(self).ips@ == old(self).ips@ && !added),
            is_playing ==> {
                &&& exists|today: Seq<char>|
                    date_text_shape(today) && entry_views(final(self).ips@) == #[trigger] after_discovery(
                        entry_views(old(self).ips@),
                        old(self).addrs(),
                        views(dst_ips@),
                        false,
                        today,
                    )
                &&& added == (fresh_addrs(
                    old(self).addrs(),
                    views(dst_ips@),
                    false,
                ).len() > 0)
            },
    {
        if !is_playing {
            return false;
        }
        let today = local_today();
        self.auto_discover_from_conn_on(dst_ips, is_playing, &today)
    }

    /// Some already lowercased looked-up domain matches some pattern of the
    /// registry.
    pub fn matches_lowered_game_domain(&self, lowered: &[String]) -> (r: bool)
        ensures
            r == is_lowered_game_domain(views(lowered@), views(self.domains@)),
    {
        let ghost lv = views(lowered@);
        let ghost pv = views(self.domains@);
        let mut i: usize = 0;
        while i < lowered.len()
            invariant
                i <= lowered@.len(),
                lv == views(lowered@),
                pv == views(self.domains@),
                forall|a: int, b: int|
                    0 <= a < i && 0 <= b < pv.len() ==> !domain_match_spec(#[trigger] lv[a], #[trigger] pv[b]),
            decreases lowered.len() - i,
        {
            let mut j: usize = 0;
            while j < self.domains.len()
                invariant
                    i < lowered@.len(),
                    j <= self.domains@.len(),
                    lv == views(lowered@),
                    pv == views(self.domains@),
                    forall|b: int| 0 <= b < j ==> !domain_match_spec(lv[i as int], #[trigger] pv[b]),
                decreases self.domains.len() - j,
            {
                if domain_match(lowered[i].as_str(), self.domains[j].as_str()) {
                    assert(domain_match_spec(lv[i as int], pv[j as int]));
                    return true;
                }
                j = j + 1;
            }
            i = i + 1;
        }
        false
    }

    /// Some looked-up domain matches some pattern of the registry.
    fn matches_game_domain(&self, domains: &[String]) -> (r: bool)
        ensures
            r == is_game_domain(views(domains@), views(self.domains@)),
    {
        let ghost dv = views(domains@);
        let mut lowered: Vec<String> = Vec::new();
        let mut i: usize = 0;
        while i < domains.len()
            invariant
                i <= domains@.len(),
                dv == views(domains@),
                lowered@.len() == i,
                forall|a: int| 0 <= a < i ==> (#[trigger] lowered@[a])@ == lowercase_text(dv[a]),
            decreases domains.len() - i,
        {
            lowered.push(to_lowercase(domains[i].as_str()));
            i = i + 1;
        }
        let r = self.matches_lowered_game_domain(lowered.as_slice());
        proof {
            let lv = views(lowered@);
            let pv = views(self.domains@);
            assert forall|a: int| 0 <= a < dv.len() implies #[trigger] lv[a] == lowercase_text(dv[a]) by {
                assert(lowered@[a]@ == lowercase_text(dv[a]));
            }
            if is_game_domain(dv, pv) {
                let (a, b) = choose|a: int, b: int|
                    0 <= a < dv.len() && 0 <= b < pv.len() && domain_match_spec(
                        lowercase_text(#[trigger] dv[a]),
                        #[trigger] pv[b],
                    );
                assert(domain_match_spec(lv[a], pv[b]));
            }
            if is_lowered_game_domain(lv, pv) {
                let (a, b) = choose|a: int, b: int|
                    0 <= a < lv.len() && 0 <= b < pv.len() && domain_match_spec(#[trigger] lv[a], #[trigger] pv[b]);
                assert(lv[a] == lowercase_text(dv[a]));
                assert(domain_match_spec(lowercase_text(dv[a]), pv[b]));
            }
        }
        r
    }

    /// Adds an address by hand, first seen on `today`; refuses one already
    /// present.
    pub fn add_manual_on(&mut self, addr: &str, label: Option<&str>, today: &String) -> (added:
        bool)
        ensures
            final(self).domains@ == old(self).domains@,
            added == !old(self).addrs().contains(addr@),
            !added ==> final(self).ips@ == old(self).ips@,
            added ==> entry_views(final(self).ips@) == entry_views(old(self).ips@).push(
                manual_entry(addr@, opt_str_view(label), today@),
            ),
    {
        if self.has_addr(addr) {
            return false;
        }
        let ghost before = entry_views(self.ips@);
        let lab = match label {
            Some(l) => Some(String::from_str(l)),
            None => None,
        };
        self.ips.push(
            GameIpEntry {
                addr: String::from_str(addr),
                source: String::from_str("manual"),
                label: lab,
                first_seen: Some(today.clone()),
            },
        );
        assert(entry_views(self.ips@) =~= before.push(self.ips@.last()@));
        true
    }

    /// `add_manual_on` with today's local date.
    pub fn add_manual(&mut self, addr: &str, label: Option<&str>) -> (added: bool)
        ensures
            final(self).domains@ == old(self).domains@,
            added == !old(self).addrs().contains(addr@),
            !added ==> final(self).ips@ == old(self).ips@,
            added ==> exists|today: Seq<char>|
                date_text_shape(today) && entry_views(final(self).ips@) == entry_views(old(self).ips@).push(
                    #[trigger] manual_entry(addr@, opt_str_view(label), today),
                ),
    {
        let today = local_today();
        self.add_manual_on(addr, label, &today)
    }

    /// Removes every entry with this address; tells whether there was one.
    pub fn remove(&mut self, addr: &str) -> (removed: bool)
        ensures
            final(self).domains@ == old(self).domains@,
            entry_views(final(self).ips@) == without_addr(entry_views(old(self).ips@), addr@),
            removed == old(self).addrs().contains(addr@),
    {
        let ghost ov = entry_views(self.ips@);
        let mut kept: Vec<GameIpEntry> = Vec::new();
        let mut i: usize = 0;
        while i < self.ips.len()
            invariant
                i <= self.ips@.len(),
                ov == entry_views(self.ips@),
                entry_views(kept@) == without_addr(ov.take(i as int), addr@),
            decreases self.ips.len() - i,
        {
            proof {
                assert(ov.take(i + 1).drop_last() =~= ov.take(i as int));
                assert(ov.take(i + 1).last() == self.ips@[i as int]@);
            }
            if !str_eq(self.ips[i].addr.as_str(), addr) {
                let ghost before = entry_views(kept@);
                kept.push(clone_entry(&self.ips[i]));
                assert(entry_views(kept@) =~= before.push(self.ips@[i as int]@));
            }
            i = i + 1;
        }
        assert(ov.take(ov.len() as int) =~= ov);
        let before_len = self.ips.len();
        self.ips = kept;
        proof {
            lemma_without_addr_len(ov, addr@);
            assert(self.ips@.len() == entry_views(self.ips@).len());
            if old(self).addrs().contains(addr@) {
                let k = choose|k: int| 0 <= k < old(self).addrs().len() && old(self).addrs()[k] == addr@;
                assert(ov[k].addr == addr@);
            }
            if exists|k: int| 0 <= k < ov.len() && (#[trigger] ov[k]).addr == addr@ {
                let k = choose|k: int| 0 <= k < ov.len() && (#[trigger] ov[k]).addr == addr@;
                assert(old(self).addrs()[k] == addr@);
            }
        }
        self.ips.len() < before_len
    }

    /// Adds an already lowercased domain pattern; refuses one already present.
    pub fn add_lowered_domain(&mut self, lowered: String) -> (added: bool)
        ensures
            final(self).ips@ == old(self).ips@,
            added == !views(old(self).domains@).contains(lowered@),
            added ==> views(final(self).domains@) == views(old(self).domains@).push(lowered@),
            !added ==> final(self).domains@ == old(self).domains@,
    {
        if crate::text::strings_contain(self.domains.as_slice(), lowered.as_str()) {
            return false;
        }
        let ghost before = views(self.domains@);
        let ghost lv = lowered@;
        self.domains.push(lowered);
        assert(views(self.domains@) =~= before.push(lv));
        true
    }

    /// Adds a domain pattern, lowercased; refuses one already present.
    pub fn add_domain(&mut self, domain: &str) -> (added: bool)
        ensures
            final(self).ips@ == old(self).ips@,
            added == !views(old(self).domains@).contains(lowercase_text(domain@)),
            added ==> views(final(self).domains@) == views(old(self).domains@).push(
                lowercase_text(domain@),
            ),
            !added ==> final(self).domains@ == old(self).domains@,
    {
        let d = to_lowercase(domain);
        self.add_lowered_domain(d)
    }

    /// Removes a domain pattern (compared lowercased); tells whether it was there.
    pub fn remove_domain(&mut self, domain: &str) -> (removed: bool)
        ensures
            final(self).ips@ == old(self).ips@,
            views(final(self).domains@) == without_text(
                views(old(self).domains@),
                lowercase_text(domain@),
            ),
            removed == views(old(self).domains@).contains(lowercase_text(domain@)),
    {
        let d = to_lowercase(domain);
        self.remove_lowered_domain(d.as_str())
    }

    /// Removes an already lowercased domain pattern; tells whether it was there.
    pub fn remove_lowered_domain(&mut self, d: &str) -> (removed: bool)
        ensures
            final(self).ips@ == old(self).ips@,
            views(final(self).domains@) == without_text(views(old(self).domains@), d@),
            removed == views(old(self).domains@).contains(d@),
    {
        let ghost ov = views(self.domains@);
        let mut kept: Vec<String> = Vec::new();
        let mut i: usize = 0;
        while i < self.domains.len()
            invariant
                i <= self.domains@.len(),
                ov == views(self.domains@),
                views(kept@) == without_text(ov.take(i as int), d@),
            decreases self.domains.len() - i,
        {
            proof {
                assert(ov.take(i + 1).drop_last() =~= ov.take(i as int));
                assert(ov.take(i + 1).last() == self.domains@[i as int]@);
            }
            if !str_eq(self.domains[i].as_str(), d) {
                let ghost before = views(kept@);
                kept.push(self.domains[i].clone());
                assert(views(kept@) =~= before.push(self.domains@[i as int]@));
            }
            i = i + 1;
        }
        assert(ov.take(ov.len() as int) =~= ov);
        let before_len = self.domains.len();
        self.domains = kept;
        proof {
            lemma_without_text_len(ov, d@);
        }
        self.domains.len() < before_len
    }

    /// The automatically found entries, in order, for review.
    pub fn auto_ips(&self) -> (r: Vec<&GameIpEntry>)
        ensures
            r@.map_values(|e: &GameIpEntry| *e) == from_source(self.ips@, "auto"@),
    {
        self.ips_from("auto")
    }

    /// The entries added by hand, in order.
    pub fn manual_ips(&self) -> (r: Vec<&GameIpEntry>)
        ensures
            r@.map_values(|e: &GameIpEntry| *e) == from_source(self.ips@, "manual"@),
    {
        self.ips_from("manual")
    }

    fn ips_from(&self, src: &str) -> (r: Vec<&GameIpEntry>)
        ensures
            r@.map_values(|e: &GameIpEntry| *e) == from_source(self.ips@, src@),
    {
        let mut r: Vec<&GameIpEntry> = Vec::new();
        let mut i: usize = 0;
        while i < self.ips.len()
            invariant
                i <= self.ips@.len(),
                r@.map_values(|e: &GameIpEntry| *e) == from_source(self.ips@.take(i as int), src@),
            decreases self.ips.len() - i,
        {
            proof {
                assert(self.ips@.take(i + 1).drop_last() =~= self.ips@.take(i as int));
            }
            let ghost before = r@.map_values(|e: &GameIpEntry| *e);
            if str_eq(self.ips[i].source.as_str(), src) {
                r.push(&self.ips[i]);
                assert(r@.map_values(|e: &GameIpEntry| *e) =~= before.push(self.ips@[i as int]));
            }
            i = i + 1;
        }
        assert(self.ips@.take(self.ips@.len() as int) =~= self.ips@);
        r
    }

    /// The registry used when none is stored: the patterns and servers of
    /// one game.
    pub fn default_registry() -> (r: Self)
        ensures
            views(r.domains@) == seq!["preternatural.cn"@, "anticheatexpert.com"@],
            entry_views(r.ips@) == seq![
                EntryView {
                    addr: "114.117.128.0/23"@,
                    source: "manual"@,
                    label: Some("超自然登录服"@),
                    first_seen: None,
                },
                EntryView {
                    addr: "122.9.145.84"@,
                    source: "manual"@,
                    label: Some("超自然战斗服"@),
                    first_seen: None,
                },
                EntryView {
                    addr: "120.72.63.210"@,
                    source: "manual"@,
                    label: Some("超自然战斗服"@),
                    first_seen: None,
                },
                EntryView {
                    addr: "211.95.155.0/24"@,
                    source: "manual"@,
                    label: Some("超自然HTTPS"@),
                    first_seen: None,
                },
                EntryView {
                    addr: "119.188.85.103"@,
                    source: "manual"@,
                    label: Some("超自然HTTPS"@),
                    first_seen: None,
                },
            ],
    {
        let mut domains: Vec<String> = Vec::new();
        domains.push(String::from_str("preternatural.cn"));
        domains.push(String::from_str("anticheatexpert.com"));
        let mut ips: Vec<GameIpEntry> = Vec::new();
        ips.push(manual_seed("114.117.128.0/23", "超自然登录服"));
        ips.push(manual_seed("122.9.145.84", "超自然战斗服"));
        ips.push(manual_seed("120.72.63.210", "超自然战斗服"));
        ips.push(manual_seed("211.95.155.0/24", "超自然HTTPS"));
        ips.push(manual_seed("119.188.85.103", "超自然HTTPS"));
        let r = GameIpRegistry { domains, ips };
        assert(views(r.domains@) =~= seq!["preternatural.cn"@, "anticheatexpert.com"@]);
        assert(entry_views(r.ips@) =~= seq![
            EntryView {
                addr: "114.117.128.0/23"@,
                source: "manual"@,
                label: Some("超自然登录服"@),
                first_seen: None,
            },
            EntryView {
                addr: "122.9.145.84"@,
                source: "manual"@,
                label: Some("超自然战斗服"@),
                first_seen: None,
            },
            EntryView {
                addr: "120.72.63.210"@,
                source: "manual"@,
                label: Some("超自然战斗服"@),
                first_seen: None,
            },
            EntryView {
                addr: "211.95.155.0/24"@,
                source: "manual"@,
                label: Some("超自然HTTPS"@),
                first_seen: None,
            },
            EntryView {
                addr: "119.188.85.103"@,
                source: "manual"@,
                label: Some("超自然HTTPS"@),
                first_seen: None,
            },
        ]);
        r
    }
}

/// A copy of an entry.
pub fn clone_entry(e: &GameIpEntry) -> (r: GameIpEntry)
    ensures
        r@ == e@,
{
    GameIpEntry {
        addr: e.addr.clone(),
        source: e.source.clone(),
        label: match &e.label {
            Some(l) => Some(l.clone()),
            None => None,
        },
        first_seen: match &e.first_seen {
            Some(f) => Some(f.clone()),
            None => None,
        },
    }
}

fn manual_seed(addr: &str, label: &str) -> (e: GameIpEntry)
    ensures
        e@ == (EntryView {
            addr: addr@,
            source: "manual"@,
            label: Some(label@),
            first_seen: None,
        }),
{
    GameIpEntry {
        addr: String::from_str(addr),
        source: String::from_str("manual"),
        label: Some(String::from_str(label)),
        first_seen: None,
    }
}

/// Matching `ip` against `pattern` does not panic.
fn ip_match_checked(ip: &str, pattern: &str) -> (r: bool)
    ensures
        r == !ip_match_panics(ip@, pattern@),
{
    let pc = str_chars(pattern);
    if crate::text::first_index(pc.as_slice(), '/').is_none() {
        return true;
    }
    let parts = split_chars(pc.as_slice(), '/');
    assert(char_views(parts@) == split_on(pattern@, '/'));
    if parts.len() != 2 {
        return true;
    }
    assert(char_views(parts@)[0] == parts@[0]@);
    assert(char_views(parts@)[1] == parts@[1]@);
    match parse_u32(parts[1].as_slice()) {
        Some(m) => {
            if m <= 32 {
                return true;
            }
            let prefix_text = crate::text::string_of(parts[0].as_slice());
            !(parse_ipv4(ip).is_some() && parse_ipv4(prefix_text.as_str()).is_some())
        },
        None => true,
    }
}

} // verus!
