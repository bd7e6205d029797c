//! The requests and answers of the game-server registry page.

use vstd::prelude::*;
use crate::ip_registry::{
    addrs_of, entry_views, manual_entry, opt_str_view, opt_view, without_addr, without_text,
    EntryView, GameIpEntry, GameIpRegistry,
};
use crate::text::{concat, copy_strings, lowercase_text, views};

verus! {

/// Add an address by hand.
#[derive(Debug, Clone)]
pub struct AddIpRequest {
    pub addr: String,
    pub label: Option<String>,
}

/// Remove an address.
#[derive(Debug, Clone)]
pub struct RemoveIpRequest {
    pub addr: String,
}

/// Add a domain pattern.
#[derive(Debug, Clone)]
pub struct AddDomainRequest {
    pub domain: String,
}

/// Remove a domain pattern.
#[derive(Debug, Clone)]
pub struct RemoveDomainRequest {
    pub domain: String,
}

/// One registry entry as the page shows it.
#[derive(Debug, Clone)]
pub struct IpEntryResponse {
    pub addr: String,
    pub source: String,
    pub label: Option<String>,
    pub first_seen: Option<String>,
}

/// The whole registry as the page shows it.
#[derive(Debug, Clone)]
pub struct GameIpListResponse {
    pub domains: Vec<String>,
    pub ips: Vec<IpEntryResponse>,
    pub total: usize,
}

/// The outcome of a change.
#[derive(Debug, Clone)]
pub struct OpResponse {
    pub ok: bool,
    pub message: String,
}

/// A shown entry as plain texts.
pub open spec fn response_view(e: IpEntryResponse) -> EntryView {
    EntryView { addr: e.addr@, source: e.source@, label: opt_view(e.label), first_seen: opt_view(e.first_seen) }
}

/// The registry as the page shows it: its patterns, its entries in order,
/// and how many entries there are.
pub fn get_game_ips(registry: &GameIpRegistry) -> (r: GameIpListResponse)
    ensures
        views(r.domains@) == views(registry.domains@),
        r.ips@.map_values(|e: IpEntryResponse| response_view(e)) == entry_views(registry.ips@),
        r.total == registry.ips@.len(),
{
    let mut ips: Vec<IpEntryResponse> = Vec::new();
    let mut i: usize = 0;
    while i < registry.ips.len()
        invariant
            i <= registry.ips@.len(),
            ips@.map_values(|e: IpEntryResponse| response_view(e)) == entry_views(registry.ips@).take(i as int),
        decreases registry.ips.len() - i,
    {
        let e = &registry.ips[i];
        let ghost before = ips@.map_values(|e: IpEntryResponse| response_view(e));
        ips.push(
            IpEntryResponse {
                addr: e.addr.clone(),
                source: e.source.clone(),
                label: match &e.label {
                    Some(l) => Some(l.clone()),
                    None => None,
                },
                first_seen: match &e.first_seen {
                    Some(f) => Some(f.clone()),
                    None => None,
                },
            },
        );
        proof {
            assert(ips@.map_values(|e: IpEntryResponse| response_view(e)) =~= before.push(registry.ips@[i as int]@));
            assert(entry_views(registry.ips@).take(i + 1) =~= entry_views(registry.ips@).take(i as int).push(registry.ips@[i as int]@));
        }
        i = i + 1;
    }
    assert(entry_views(registry.ips@).take(registry.ips@.len() as int) =~= entry_views(registry.ips@));
    let total = ips.len();
    GameIpListResponse { domains: copy_strings(registry.domains.as_slice()), ips, total }
}

/// The answer to a change: `ok` with the success text and the subject, or
/// not with the failure text and the subject.
pub open spec fn op_text(ok: bool, yes: Seq<char>, no: Seq<char>, subject: Seq<char>) -> Seq<char> {
    if ok {
        yes + subject
    } else {
        no + subject
    }
}

fn op_response(ok: bool, yes: &str, no: &str, subject: &str) -> (r: OpResponse)
    ensures
        r.ok == ok,
        r.message@ == op_text(ok, yes@, no@, subject@),
{
    OpResponse { ok, message: concat(if ok { yes } else { no }, subject) }
}

/// Adds an address by hand and answers; the registry is to be saved when
/// the answer is `ok`.
pub fn add_game_ip(registry: &mut GameIpRegistry, req: &AddIpRequest) -> (r: OpResponse)
    ensures
        final(registry).domains@ == old(registry).domains@,
        r.ok == !addrs_of(old(registry).ips@).contains(req.addr@),
        !r.ok ==> final(registry).ips@ == old(registry).ips@,
        r.ok ==> exists|today: Seq<char>|
            entry_views(final(registry).ips@) == entry_views(old(registry).ips@).push(
                #[trigger] manual_entry(req.addr@, opt_view(req.label), today),
            ),
        r.message@ == op_text(r.ok, "已添加: "@, "已存在: "@, req.addr@),
{
    let label = match &req.label {
        Some(l) => Some(l.as_str()),
        None => None,
    };
    assert(opt_str_view(label) == opt_view(req.label));
    let added = registry.add_manual(req.addr.as_str(), label);
    op_response(added, "已添加: ", "已存在: ", req.addr.as_str())
}

/// Removes an address and answers; the registry is to be saved when the
/// answer is `ok`.
pub fn remove_game_ip(registry: &mut GameIpRegistry, req: &RemoveIpRequest) -> (r: OpResponse)
    ensures
        final(registry).domains@ == old(registry).domains@,
        entry_views(final(registry).ips@) == without_addr(entry_views(old(registry).ips@), req.addr@),
        r.ok == addrs_of(old(registry).ips@).contains(req.addr@),
        r.message@ == op_text(r.ok, "已删除: "@, "未找到: "@, req.addr@),
{
    let removed = registry.remove(req.addr.as_str());
    op_response(removed, "已删除: ", "未找到: ", req.addr.as_str())
}

/// Adds a domain pattern and answers; the registry is to be saved when
/// the answer is `ok`.
pub fn add_game_domain(registry: &mut GameIpRegistry, req: &AddDomainRequest) -> (r: OpResponse)
    ensures
        final(registry).ips@ == old(registry).ips@,
        r.ok == !views(old(registry).domains@).contains(lowercase_text(req.domain@)),
        r.ok ==> views(final(registry).domains@) == views(old(registry).domains@).push(lowercase_text(req.domain@)),
        !r.ok ==> final(registry).domains@ == old(registry).domains@,
        r.message@ == op_text(r.ok, "已添加域名: "@, "已存在: "@, req.domain@),
{
    let added = registry.add_domain(req.domain.as_str());
    op_response(added, "已添加域名: ", "已存在: ", req.domain.as_str())
}

/// Removes a domain pattern and answers; the registry is to be saved when
/// the answer is `ok`.
pub fn remove_game_domain(registry: &mut GameIpRegistry, req: &RemoveDomainRequest) -> (r: OpResponse)
    ensures
        final(registry).ips@ == old(registry).ips@,
        views(final(registry).domains@) == without_text(views(old(registry).domains@), lowercase_text(req.domain@)),
        r.ok == views(old(registry).domains@).contains(lowercase_text(req.domain@)),
        r.message@ == op_text(r.ok, "已删除域名: "@, "未找到: "@, req.domain@),
{
    let removed = registry.remove_domain(req.domain.as_str());
    op_response(removed, "已删除域名: ", "未找到: ", req.domain.as_str())
}

} // verus!
