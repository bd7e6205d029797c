//! Reading a device's recent DNS lookups out of the DNS server's audit log.

use vstd::prelude::*;
use crate::clock::{instant_before, is_before, local_now, parse_rfc3339, rfc3339_instant, Instant};
use crate::text::{
    concat, copy_strings, has_prefix, has_suffix, lowercase_text, seq_ends_with, seq_starts_with,
    str_chars, str_eq, string_of, strings_contain, to_lowercase, views,
};

verus! {

/// One record of the DNS server's audit log, as far as the log gives each
/// field as a string (`answers`: the list when there is one, each item when
/// it is a string).
#[derive(Debug, Clone)]
pub struct DnsLogEntry {
    pub query_time: Option<String>,
    pub client_ip: Option<String>,
    pub query_name: Option<String>,
    pub answers: Option<Vec<Option<String>>>,
}

/// A log record as plain texts.
pub struct LogView {
    pub query_time: Option<Seq<char>>,
    pub client_ip: Option<Seq<char>>,
    pub query_name: Option<Seq<char>>,
    pub answers: Option<Seq<Option<Seq<char>>>>,
}

/// The view of an optional string.
pub open spec fn ov(o: Option<String>) -> Option<Seq<char>> {
    match o {
        Some(s) => Some(s@),
        None => None,
    }
}

/// The views of optional strings.
pub open spec fn ovs(s: Seq<Option<String>>) -> Seq<Option<Seq<char>>> {
    s.map_values(|o: Option<String>| ov(o))
}

impl View for DnsLogEntry {
    type V = LogView;

    open spec fn view(&self) -> LogView {
        LogView {
            query_time: ov(self.query_time),
            client_ip: ov(self.client_ip),
            query_name: ov(self.query_name),
            answers: match self.answers {
                Some(v) => Some(ovs(v@)),
                None => None,
            },
        }
    }
}

/// The views of log records.
pub open spec fn log_views(s: Seq<DnsLogEntry>) -> Seq<LogView> {
    s.map_values(|e: DnsLogEntry| e@)
}

/// An address with an IPv4-mapped IPv6 prefix `::ffff:` taken off.
pub open spec fn unmapped(s: Seq<char>) -> Seq<char> {
    if seq_starts_with(s, "::ffff:"@) {
        s.skip(7)
    } else {
        s
    }
}

/// The answers after adding a record's answer addresses in order: each
/// string answer, unmapped, when not empty and not yet present.
pub open spec fn add_answers(acc: Seq<Seq<char>>, ans: Seq<Option<Seq<char>>>) -> Seq<Seq<char>>
    decreases ans.len(),
{
    if ans.len() == 0 {
        acc
    } else {
        let prev = add_answers(acc, ans.drop_last());
        match ans.last() {
            Some(a) => {
                let c = unmapped(a);
                if c.len() > 0 && !prev.contains(c) {
                    prev.push(c)
                } else {
                    prev
                }
            },
            None => prev,
        }
    }
}

/// The record is older than the cutoff (only when its time parses).
pub open spec fn too_old(e: LogView, cutoff: Instant) -> bool {
    match e.query_time {
        Some(t) => match rfc3339_instant(t) {
            Some(i) => instant_before(Instant { secs: i.0, nanos: i.1 }, cutoff),
            None => false,
        },
        None => false,
    }
}

/// A reverse lookup, which is noise.
pub open spec fn is_reverse_lookup(d: Seq<char>) -> bool {
    seq_ends_with(d, ".ip6.arpa"@) || seq_ends_with(d, ".in-addr.arpa"@)
}

/// The (domains, answers) after one record: records older than the
/// cutoff or from another client are skipped; the lowercased query name is
/// added unless empty, already present (then the record's answers are
/// skipped too) or a reverse lookup (likewise); then the answers are added.
pub open spec fn log_step(
    st: (Seq<Seq<char>>, Seq<Seq<char>>),
    e: LogView,
    ip: Seq<char>,
    cutoff: Instant,
) -> (Seq<Seq<char>>, Seq<Seq<char>>) {
    let cip = unmapped(
        match e.client_ip {
            Some(c) => c,
            None => Seq::empty(),
        },
    );
    let with_answers = |doms: Seq<Seq<char>>|
        (
            doms,
            match e.answers {
                Some(a) => add_answers(st.1, a),
                None => st.1,
            },
        );
    if too_old(e, cutoff) || cip != ip {
        st
    } else {
        match e.query_name {
            Some(q) => {
                let d = lowercase_text(q);
                if d.len() == 0 || st.0.contains(d) || is_reverse_lookup(d) {
                    st
                } else {
                    with_answers(st.0.push(d))
                }
            },
            None => with_answers(st.0),
        }
    }
}

/// The (domains, answers) after the records in order.
pub open spec fn log_fold(entries: Seq<LogView>, ip: Seq<char>, cutoff: Instant) -> (
    Seq<Seq<char>>,
    Seq<Seq<char>>,
)
    decreases entries.len(),
{
    if entries.len() == 0 {
        (Seq::empty(), Seq::empty())
    } else {
        log_step(log_fold(entries.drop_last(), ip, cutoff), entries.last(), ip, cutoff)
    }
}

/// An already lowercased query name is kept: it is not empty, not kept
/// already, and not a reverse lookup.
pub fn accepts_domain(kept: &[String], lowered: &str) -> (r: bool)
    ensures
        r == !(lowered@.len() == 0 || views(kept@).contains(lowered@) || is_reverse_lookup(lowered@)),
{
    let dc = str_chars(lowered);
    let ip6 = str_chars(".ip6.arpa");
    let v4 = str_chars(".in-addr.arpa");
    !(lowered.is_empty() || strings_contain(kept, lowered) || has_suffix(dc.as_slice(), ip6.as_slice())
        || has_suffix(dc.as_slice(), v4.as_slice()))
}

/// The instant one minute before `now`.
pub open spec fn minute_before(now: Instant) -> Instant {
    Instant { secs: (now.secs - 60) as i64, nanos: now.nanos }
}

/// Reads recent DNS lookups from the DNS server's audit log.
pub struct DnsCollector {
    pub mosdns_url: String,
    last_answers: Vec<String>,
}

/// The address with `::ffff:` taken off.
fn unmap(s: &str) -> (r: String)
    ensures
        r@ == unmapped(s@),
{
    let cs = str_chars(s);
    let pre = str_chars("::ffff:");
    proof {
        reveal_strlit("::ffff:");
    }
    if has_prefix(cs.as_slice(), pre.as_slice()) {
        let mut rest: Vec<char> = Vec::new();
        let mut j: usize = 7;
        while j < cs.len()
            invariant
                7 <= cs@.len(),
                7 <= j <= cs@.len(),
                rest@ == cs@.subrange(7, j as int),
            decreases cs.len() - j,
        {
            rest.push(cs[j]);
            j = j + 1;
        }
        assert(rest@ =~= s@.skip(7));
        string_of(rest.as_slice())
    } else {
        String::from_str(s)
    }
}

/// Adds a record's answers.
fn push_answers(answers: &mut Vec<String>, ans: &Vec<Option<String>>)
    ensures
        views(final(answers)@) == add_answers(views(old(answers)@), ovs(ans@)),
{
    let ghost start = views(answers@);
    let mut k: usize = 0;
    while k < ans.len()
        invariant
            k <= ans@.len(),
            start == views(old(answers)@),
            views(answers@) == add_answers(start, ovs(ans@).take(k as int)),
        decreases ans.len() - k,
    {
        proof {
            assert(ovs(ans@).take(k + 1).drop_last() =~= ovs(ans@).take(k as int));
            assert(ovs(ans@).take(k + 1).last() == ov(ans@[k as int]));
        }
        match &ans[k] {
            Some(a) => {
                let c = unmap(a.as_str());
                if !c.as_str().is_empty() && !strings_contain(answers.as_slice(), c.as_str()) {
                    let ghost before = views(answers@);
                    answers.push(c);
                    assert(views(answers@) =~= before.push(unmapped(a@)));
                }
            },
            None => {},
        }
        k = k + 1;
    }
    assert(ovs(ans@).take(ans@.len() as int) =~= ovs(ans@));
}

impl DnsCollector {
    /// The DNS server's address.
    pub closed spec fn url(&self) -> Seq<char> {
        self.mosdns_url@
    }

    /// The answers kept from the last reading, in order.
    pub closed spec fn answers(&self) -> Seq<Seq<char>> {
        views(self.last_answers@)
    }

    /// A collector for the DNS server at `mosdns_url`, with no answers yet.
    pub fn new(mosdns_url: &str) -> (r: Self)
        ensures
            r.url() == mosdns_url@,
            r.answers() == Seq::<Seq<char>>::empty(),
    {
        let r = DnsCollector { mosdns_url: String::from_str(mosdns_url), last_answers: Vec::new() };
        assert(r.answers() =~= Seq::<Seq<char>>::empty());
        r
    }

    /// The answer addresses of the last reading, for discovering servers.
    pub fn get_last_answers(&self) -> (r: Vec<String>)
        ensures
            views(r@) == self.answers(),
    {
        copy_strings(self.last_answers.as_slice())
    }

    /// Where the audit log is read: the last two hundred records.
    pub fn audit_log_url(&self) -> (r: String)
        ensures
            r@ == self.url() + "/api/v1/audit/logs?limit=200"@,
    {
        concat(self.mosdns_url.as_str(), "/api/v1/audit/logs?limit=200")
    }

    /// The distinct lowercased domains that the device at `ip` looked up at
    /// or after `cutoff`, in log order; keeps the records' answer addresses
    /// for the next call of `get_last_answers`.
    pub fn take_recent_domains(&mut self, entries: &[DnsLogEntry], ip: &str, cutoff: &Instant) -> (r:
        Vec<String>)
        ensures
            views(r@) == log_fold(log_views(entries@), ip@, *cutoff).0,
            final(self).answers() == log_fold(log_views(entries@), ip@, *cutoff).1,
            final(self).url() == old(self).url(),
    {
        let ghost lv = log_views(entries@);
        let mut domains: Vec<String> = Vec::new();
        let mut answers: Vec<String> = Vec::new();
        let mut i: usize = 0;
        while i < entries.len()
            invariant
                i <= entries@.len(),
                lv == log_views(entries@),
                (views(domains@), views(answers@)) == log_fold(lv.take(i as int), ip@, *cutoff),
            decreases entries.len() - i,
        {
            proof {
                assert(lv.take(i + 1).drop_last() =~= lv.take(i as int));
                assert(lv.take(i + 1).last() == entries@[i as int]@);
            }
            let e = &entries[i];
            let old_enough = match &e.query_time {
                Some(t) => match parse_rfc3339(t.as_str()) {
                    Some((s, n)) => is_before(&Instant { secs: s, nanos: n }, cutoff),
                    None => false,
                },
                None => false,
            };
            let cip = match &e.client_ip {
                Some(c) => unmap(c.as_str()),
                None => unmap(""),
            };
            proof {
                if e.client_ip is None {
                    assert(""@ =~= Seq::<char>::empty()) by {
                        reveal_strlit("");
                    }
                }
            }
            if !old_enough && str_eq(cip.as_str(), ip) {
                let mut take_answers = true;
                match &e.query_name {
                    Some(q) => {
                        let d = to_lowercase(q.as_str());
                        if !accepts_domain(domains.as_slice(), d.as_str()) {
                            take_answers = false;
                        } else {
                            let ghost before = views(domains@);
                            domains.push(d);
                            assert(views(domains@) =~= before.push(lowercase_text(q@)));
                        }
                    },
                    None => {},
                }
                if take_answers {
                    match &e.answers {
                        Some(ans) => push_answers(&mut answers, ans),
                        None => {},
                    }
                }
            }
            i = i + 1;
        }
        assert(lv.take(lv.len() as int) =~= lv);
        self.last_answers = answers;
        domains
    }

    /// `take_recent_domains` with the cutoff one minute before now: the
    /// window is the last minute of the clock's current instant.
    pub fn collect_recent_domains(&mut self, entries: &[DnsLogEntry], ip: &str) -> (r: Vec<String>)
        ensures
            exists|now: Instant|
                -10_000_000_000_000 <= now.secs <= 10_000_000_000_000
                    && views(r@) == (#[trigger] log_fold(log_views(entries@), ip@, minute_before(now))).0
                    && final(self).answers() == log_fold(log_views(entries@), ip@, minute_before(now)).1,
            final(self).url() == old(self).url(),
    {
        let now = local_now();
        let cutoff = Instant { secs: now.secs - 60, nanos: now.nanos };
        assert(cutoff == minute_before(now));
        self.take_recent_domains(entries, ip, &cutoff)
    }
}

} // verus!
