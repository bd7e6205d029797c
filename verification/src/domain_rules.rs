//! Recognising apps and games from the domains a device looks up.

use vstd::prelude::*;
use crate::models::DomainClassification;
use crate::order::{sorted_distinct, sorted_set_of};
use crate::text::{
    has_substring, lowercase_text, str_views, seq_contains, str_chars, str_eq, to_lowercase, views,
};

verus! {

// ------------------------------------------------------------------ the rules

/// How many categories the rule table has.
pub open spec fn rule_count() -> int {
    5
}

/// The category name of rule `i`, in table order.
pub open spec fn rule_category(i: int) -> Seq<char> {
    if i == 0 {
        "GAME_EGG"@
    } else if i == 1 {
        "GAME_PRETERNATURAL"@
    } else if i == 2 {
        "XIAOHONGSHU"@
    } else if i == 3 {
        "TENCENT_VIDEO"@
    } else {
        "HONGGUO"@
    }
}

/// The display name of the category of rule `i`.
pub open spec fn rule_name(i: int) -> Seq<char> {
    if i == 0 {
        "蛋仔派对"@
    } else if i == 1 {
        "超自然"@
    } else if i == 2 {
        "小红书"@
    } else if i == 3 {
        "腾讯视频"@
    } else {
        "红果短剧"@
    }
}

/// The domain fragments that mark rule `i`.
pub open spec fn rule_patterns(i: int) -> Seq<Seq<char>> {
    if i == 0 {
        seq!["egg.fp.ps.netease.com"@, "gameyw.netease.com"@]
    } else if i == 1 {
        seq!["preternatural.cn"@, "anticheatexpert.com"@]
    } else if i == 2 {
        seq!["xiaohongshu.com"@, "xhscdn.com"@]
    } else if i == 3 {
        seq!["v.qq.com"@, "tencent-video.com"@, "mff.gtimg.com"@]
    } else {
        seq!["hongguo.com"@, "hongguo.tv"@, "ixigua.com"@]
    }
}

/// Fragments that mark a domain as background noise, never an app.
pub open spec fn exclusions() -> Seq<Seq<char>> {
    seq![
        "dbankcloud.cn"@,
        "dbankcdn.cn"@,
        "dbankcloud.com"@,
        "dbankcdn.com"@,
        "hicloud.com"@,
        "connectivitycheck"@,
        "beacon"@,
        "track."@,
        "analytics"@,
        "sdk."@,
        "pixel."@,
        "event."@,
        "stat."@,
        "metrics"@,
        "apm"@,
        "ipv6.arpa"@,
        "apple.com"@,
        "qq.com"@,
        "icloud.com"@,
        "baidu.com"@,
        "push."@,
        "firebase"@,
    ]
}

/// The rule of the `p`-th category in priority order (games first).
pub open spec fn priority_rule(p: int) -> int {
    if p == 0 {
        0
    } else if p == 1 {
        1
    } else if p == 2 {
        2
    } else if p == 3 {
        4
    } else {
        3
    }
}

/// The display name of a category, if it is one of the table's.
pub open spec fn category_display_name(c: Seq<char>) -> Option<Seq<char>> {
    if c == rule_category(0) {
        Some(rule_name(0))
    } else if c == rule_category(1) {
        Some(rule_name(1))
    } else if c == rule_category(2) {
        Some(rule_name(2))
    } else if c == rule_category(3) {
        Some(rule_name(3))
    } else if c == rule_category(4) {
        Some(rule_name(4))
    } else {
        None
    }
}

// ------------------------------------------------------------------ matching

/// The (lowercased) domain holds an exclusion fragment.
pub open spec fn is_excluded(dl: Seq<char>) -> bool {
    exists|e: int| 0 <= e < exclusions().len() && seq_contains(dl, #[trigger] exclusions()[e])
}

/// The (lowercased) domain holds a fragment of rule `i`.
pub open spec fn rule_hits(dl: Seq<char>, i: int) -> bool {
    exists|j: int| 0 <= j < rule_patterns(i).len() && seq_contains(dl, #[trigger] rule_patterns(i)[j])
}

/// The first rule, from `i` on, that the (lowercased) domain hits.
pub open spec fn first_rule_from(dl: Seq<char>, i: int) -> Option<int>
    decreases rule_count() - i,
{
    if i >= rule_count() || i < 0 {
        None
    } else if rule_hits(dl, i) {
        Some(i)
    } else {
        first_rule_from(dl, i + 1)
    }
}

/// The rule an already lowercased domain falls under: none when it is
/// excluded, else the first rule in table order one of whose fragments it
/// contains.
pub open spec fn lowered_rule(dl: Seq<char>) -> Option<int> {
    if is_excluded(dl) {
        None
    } else {
        first_rule_from(dl, 0)
    }
}

/// The rule a domain falls under, ignoring case.
pub open spec fn matched_rule(domain: Seq<char>) -> Option<int> {
    lowered_rule(lowercase_text(domain))
}

/// The category an already lowercased domain falls under.
pub open spec fn lowered_category(dl: Seq<char>) -> Option<Seq<char>> {
    match lowered_rule(dl) {
        Some(i) => Some(rule_category(i)),
        None => None,
    }
}

/// The category a domain falls under.
pub open spec fn match_domain_spec(domain: Seq<char>) -> Option<Seq<char>> {
    lowered_category(lowercase_text(domain))
}

fn rule_category_text(i: usize) -> (s: &'static str)
    requires
        i < 5,
    ensures
        s@ == rule_category(i as int),
{
    if i == 0 {
        "GAME_EGG"
    } else if i == 1 {
        "GAME_PRETERNATURAL"
    } else if i == 2 {
        "XIAOHONGSHU"
    } else if i == 3 {
        "TENCENT_VIDEO"
    } else {
        "HONGGUO"
    }
}

fn rule_name_text(i: usize) -> (s: &'static str)
    requires
        i < 5,
    ensures
        s@ == rule_name(i as int),
{
    if i == 0 {
        "蛋仔派对"
    } else if i == 1 {
        "超自然"
    } else if i == 2 {
        "小红书"
    } else if i == 3 {
        "腾讯视频"
    } else {
        "红果短剧"
    }
}

fn rule_pattern_texts(i: usize) -> (v: Vec<&'static str>)
    requires
        i < 5,
    ensures
        str_views(v@) == rule_patterns(i as int),
{
    let mut v: Vec<&'static str> = Vec::new();
    if i == 0 {
        v.push("egg.fp.ps.netease.com");
        v.push("gameyw.netease.com");
    } else if i == 1 {
        v.push("preternatural.cn");
        v.push("anticheatexpert.com");
    } else if i == 2 {
        v.push("xiaohongshu.com");
        v.push("xhscdn.com");
    } else if i == 3 {
        v.push("v.qq.com");
        v.push("tencent-video.com");
        v.push("mff.gtimg.com");
    } else {
        v.push("hongguo.com");
        v.push("hongguo.tv");
        v.push("ixigua.com");
    }
    assert(str_views(v@) =~= rule_patterns(i as int));
    v
}

fn exclusion_texts() -> (v: Vec<&'static str>)
    ensures
        str_views(v@) == exclusions(),
{
    let mut v: Vec<&'static str> = Vec::new();
    v.push("dbankcloud.cn");
    v.push("dbankcdn.cn");
    v.push("dbankcloud.com");
    v.push("dbankcdn.com");
    v.push("hicloud.com");
    v.push("connectivitycheck");
    v.push("beacon");
    v.push("track.");
    v.push("analytics");
    v.push("sdk.");
    v.push("pixel.");
    v.push("event.");
    v.push("stat.");
    v.push("metrics");
    v.push("apm");
    v.push("ipv6.arpa");
    v.push("apple.com");
    v.push("qq.com");
    v.push("icloud.com");
    v.push("baidu.com");
    v.push("push.");
    v.push("firebase");
    assert(str_views(v@) =~= exclusions());
    v
}

/// Any of the fragments occurs in `dl`.
fn any_fragment(dl: &[char], frags: &Vec<&'static str>) -> (r: bool)
    ensures
        r == exists|j: int|
            0 <= j < frags@.len() && seq_contains(dl@, #[trigger] str_views(frags@)[j]),
{
    let ghost fv = str_views(frags@);
    let mut j: usize = 0;
    while j < frags.len()
        invariant
            j <= frags@.len(),
            fv == str_views(frags@),
            forall|k: int| 0 <= k < j ==> !seq_contains(dl@, #[trigger] fv[k]),
        decreases frags.len() - j,
    {
        let f = str_chars(frags[j]);
        if has_substring(dl, f.as_slice()) {
            assert(fv[j as int] == frags@[j as int]@);
            return true;
        }
        j = j + 1;
    }
    false
}

/// The rule index that an already lowercased domain falls under.
fn lowered_rule_index(lower: &str) -> (r: Option<usize>)
    ensures
        match r {
            Some(i) => i < 5 && lowered_rule(lower@) == Some(i as int),
            None => lowered_rule(lower@) is None,
        },
{
    let dl = str_chars(lower);
    let ex = exclusion_texts();
    if any_fragment(dl.as_slice(), &ex) {
        return None;
    }
    let mut i: usize = 0;
    while i < 5
        invariant
            i <= 5,
            dl@ == lower@,
            !is_excluded(dl@),
            first_rule_from(dl@, 0) == first_rule_from(dl@, i as int),
        decreases 5 - i,
    {
        let pats = rule_pattern_texts(i);
        if any_fragment(dl.as_slice(), &pats) {
            return Some(i);
        }
        i = i + 1;
    }
    None
}

/// The rule index that `domain` falls under.
fn match_rule_index(domain: &str) -> (r: Option<usize>)
    ensures
        match r {
            Some(i) => i < 5 && matched_rule(domain@) == Some(i as int),
            None => matched_rule(domain@) is None,
        },
{
    let lower = to_lowercase(domain);
    lowered_rule_index(lower.as_str())
}

/// The category that an already lowercased domain falls under (`None` for
/// excluded or unknown domains).
pub fn match_lowered_domain(lower: &str) -> (r: Option<String>)
    ensures
        match r {
            Some(c) => lowered_category(lower@) == Some(c@),
            None => lowered_category(lower@) is None,
        },
{
    match lowered_rule_index(lower) {
        Some(i) => Some(String::from_str(rule_category_text(i))),
        None => None,
    }
}

/// The category that a domain falls under (`None` for excluded or unknown
/// domains); case does not matter.
pub fn match_domain(domain: &str) -> (r: Option<String>)
    ensures
        match r {
            Some(c) => match_domain_spec(domain@) == Some(c@),
            None => match_domain_spec(domain@) is None,
        },
{
    let lower = to_lowercase(domain);
    match_lowered_domain(lower.as_str())
}

// ------------------------------------------------------------------ classification

/// Some domain of the batch falls under rule `i`.
pub open spec fn batch_hits(domains: Seq<Seq<char>>, i: int) -> bool {
    exists|k: int| 0 <= k < domains.len() && matched_rule(#[trigger] domains[k]) == Some(i)
}

/// Some domain of the batch falls under some rule.
pub open spec fn batch_matches(domains: Seq<Seq<char>>) -> bool {
    exists|k: int| 0 <= k < domains.len() && (#[trigger] matched_rule(domains[k])) is Some
}

/// The domains of the batch that fall under some rule.
pub open spec fn matched_domains(domains: Seq<Seq<char>>) -> Set<Seq<char>> {
    Set::new(|d: Seq<char>| domains.contains(d) && matched_rule(d) is Some)
}

/// The first rule in priority order, from position `p` on, that the batch hits.
pub open spec fn first_priority_from(domains: Seq<Seq<char>>, p: int) -> Option<int>
    decreases rule_count() - p,
{
    if p >= rule_count() || p < 0 {
        None
    } else if batch_hits(domains, priority_rule(p)) {
        Some(priority_rule(p))
    } else {
        first_priority_from(domains, p + 1)
    }
}

/// The category and display name of a batch: `NONE` when no domain falls
/// under a rule, else the highest-priority category that one does.
pub open spec fn classification_of(domains: Seq<Seq<char>>) -> (Seq<char>, Seq<char>) {
    if !batch_matches(domains) {
        ("NONE"@, "其它"@)
    } else {
        match first_priority_from(domains, 0) {
            Some(i) => (rule_category(i), rule_name(i)),
            None => ("OTHER"@, "其它"@),
        }
    }
}

/// Classifies a batch of looked-up domains: the category of highest priority
/// among those the domains fall under, its display name, and the matching
/// domains, sorted and without repeats.
pub fn classify_domains(domains: &[String]) -> (r: DomainClassification)
    ensures
        (r.category@, r.name@) == classification_of(views(domains@)),
        sorted_set_of(views(r.domains@), matched_domains(views(domains@))),
{
    let ghost dv = views(domains@);
    let mut hits: Vec<bool> = Vec::new();
    hits.push(false);
    hits.push(false);
    hits.push(false);
    hits.push(false);
    hits.push(false);
    let mut matched: Vec<String> = Vec::new();
    let mut any = false;
    let mut k: usize = 0;
    while k < domains.len()
        invariant
            k <= domains@.len(),
            dv == views(domains@),
            hits@.len() == 5,
            forall|i: int|
                0 <= i < 5 ==> #[trigger] hits@[i] == exists|m: int|
                    0 <= m < k && matched_rule(#[trigger] dv[m]) == Some(i),
            any == exists|m: int| 0 <= m < k && (#[trigger] matched_rule(dv[m])) is Some,
            views(matched@).to_set() == Set::new(
                |d: Seq<char>| exists|m: int| 0 <= m < k && dv[m] == d && matched_rule(d) is Some,
            ),
        decreases domains.len() - k,
    {
        let ghost before = views(matched@);
        match match_rule_index(domains[k].as_str()) {
            Some(i) => {
                hits.set(i, true);
                matched.push(domains[k].clone());
                any = true;
                proof {
                    assert(dv[k as int] == domains@[k as int]@);
                    assert(views(matched@) =~= before.push(dv[k as int]));
                    before.lemma_push_to_set_commute(dv[k as int]);
                }
            },
            None => {
                assert(dv[k as int] == domains@[k as int]@);
            },
        }
        proof {
            assert forall|i: int|
                0 <= i < 5 implies #[trigger] hits@[i] == exists|m: int|
                0 <= m < k + 1 && matched_rule(#[trigger] dv[m]) == Some(i) by {
                if hits@[i] {
                    if !(exists|m: int| 0 <= m < k && matched_rule(#[trigger] dv[m]) == Some(i)) {
                        assert(matched_rule(dv[k as int]) == Some(i));
                    }
                }
            }
            assert(views(matched@).to_set() =~= Set::new(
                |d: Seq<char>| exists|m: int| 0 <= m < k + 1 && dv[m] == d && matched_rule(d) is Some,
            )) by {
                assert forall|d: Seq<char>| #[trigger]
                    views(matched@).to_set().contains(d) implies exists|m: int|
                    0 <= m < k + 1 && dv[m] == d && matched_rule(d) is Some by {
                    if !before.to_set().contains(d) {
                        assert(d == dv[k as int]);
                    }
                }
            }
        }
        k = k + 1;
    }
    let ghost mset = Set::new(
        |d: Seq<char>| exists|m: int| 0 <= m < domains@.len() && dv[m] == d && matched_rule(d) is Some,
    );
    assert(mset =~= matched_domains(dv)) by {
        assert forall|d: Seq<char>| matched_domains(dv).contains(d) implies mset.contains(d) by {
            let m = choose|m: int| 0 <= m < dv.len() && dv[m] == d;
        }
    }
    let doms = sorted_distinct(matched.as_slice());
    if !any {
        assert(!batch_matches(dv));
        return DomainClassification {
            category: String::from_str("NONE"),
            name: String::from_str("其它"),
            domains: doms,
        };
    }
    assert(batch_matches(dv));
    assert(forall|i: int| 0 <= i < 5 ==> #[trigger] hits@[i] == batch_hits(dv, i));
    let mut p: usize = 0;
    while p < 5
        invariant
            p <= 5,
            hits@.len() == 5,
            dv == views(domains@),
            batch_matches(dv),
            sorted_set_of(views(doms@), matched_domains(dv)),
            forall|i: int|
                0 <= i < 5 ==> #[trigger] hits@[i] == batch_hits(dv, i),
            first_priority_from(dv, 0) == first_priority_from(dv, p as int),
        decreases 5 - p,
    {
        let rule: usize = if p == 0 {
            0
        } else if p == 1 {
            1
        } else if p == 2 {
            2
        } else if p == 3 {
            4
        } else {
            3
        };
        if hits[rule] {
            return DomainClassification {
                category: String::from_str(rule_category_text(rule)),
                name: String::from_str(rule_name_text(rule)),
                domains: doms,
            };
        }
        p = p + 1;
    }
    DomainClassification {
        category: String::from_str("OTHER"),
        name: String::from_str("其它"),
        domains: doms,
    }
}

/// The display name of a category; `其它活动` for one the table lacks.
pub fn get_category_chinese(category: &str) -> (r: String)
    ensures
        r@ == match category_display_name(category@) {
            Some(n) => n,
            None => "其它活动"@,
        },
{
    let mut i: usize = 0;
    while i < 5
        invariant
            i <= 5,
            forall|j: int| 0 <= j < i ==> category@ != rule_category(j),
        decreases 5 - i,
    {
        if str_eq(category, rule_category_text(i)) {
            return String::from_str(rule_name_text(i));
        }
        i = i + 1;
    }
    String::from_str("其它活动")
}

} // verus!
